use schema_searcher::client::{
    dataset_references, datasets_url, get_tables, list_project_tables, table_references, table_url,
    tables_url,
};
use schema_searcher::fuzzy::{parse_selection, tables_to_string};
use schema_searcher::types::{
    Column, Dataset, DatasetList, DatasetReference, Schema, SearchError, Table, TableList,
    TableReference,
};
use schema_searcher::writer::write_table;

fn table_ref(p: &str, d: &str, t: &str) -> TableReference {
    TableReference {
        project_id: p.to_string(),
        dataset_id: d.to_string(),
        table_id: t.to_string(),
    }
}

fn column(name: &str, ty: &str, mode: Option<&str>, fields: Option<Vec<Column>>) -> Column {
    Column {
        name: name.to_string(),
        field_type: ty.to_string(),
        mode: mode.map(|m| m.to_string()),
        fields,
    }
}

fn listing(refs: Vec<TableReference>) -> TableList {
    TableList {
        tables: refs
            .into_iter()
            .map(|r| Table {
                table_reference: r,
                schema: None,
            })
            .collect(),
    }
}

fn render(table: &Table) -> String {
    let mut out = String::new();
    write_table(&mut out, table);
    out
}

fn column_lines(text: &str) -> usize {
    text.lines().filter(|l| l.trim_start().starts_with("|- ")).count()
}

#[test]
fn format_of_parse_gives_text_back() {
    for s in ["p.d.t", "bigquery-public-data.samples.shakespeare", "a.b.c"] {
        let r = TableReference::from_str(s).unwrap();
        assert_eq!(r.to_str(), s);
    }
    let r = TableReference::from_str("proj.ds.tbl").unwrap();
    assert_eq!(r, table_ref("proj", "ds", "tbl"));
}

#[test]
fn parse_of_format_gives_reference_back() {
    let r = table_ref("proj", "data_set", "t1");
    assert_eq!(TableReference::from_str(&r.to_str()), Ok(r));
}

#[test]
fn parse_rejects_wrong_dot_count_and_empty_segments() {
    for s in ["", "abc", "a.b", "a.b.c.d", "a..c", ".b.c", "a.b.", "...", "a.b.c."] {
        assert_eq!(
            TableReference::from_str(s),
            Err(format!("Invalid table reference: {}", s))
        );
    }
}

#[test]
fn urls_name_the_resources() {
    assert_eq!(
        datasets_url("proj"),
        "https://bigquery.googleapis.com/bigquery/v2/projects/proj/datasets"
    );
    let d = DatasetReference {
        project_id: "proj".to_string(),
        dataset_id: "ds".to_string(),
    };
    assert_eq!(
        tables_url(&d),
        "https://bigquery.googleapis.com/bigquery/v2/projects/proj/datasets/ds/tables"
    );
    assert_eq!(
        table_url(&table_ref("proj", "ds", "t")),
        "https://bigquery.googleapis.com/bigquery/v2/projects/proj/datasets/ds/tables/t"
    );
}

#[test]
fn references_are_taken_from_listings() {
    let list = DatasetList {
        datasets: vec![
            Dataset {
                dataset_reference: DatasetReference {
                    project_id: "p".to_string(),
                    dataset_id: "a".to_string(),
                },
            },
            Dataset {
                dataset_reference: DatasetReference {
                    project_id: "p".to_string(),
                    dataset_id: "b".to_string(),
                },
            },
        ],
    };
    let refs = dataset_references(list);
    assert_eq!(refs.len(), 2);
    assert_eq!(refs[0].dataset_id, "a");
    assert_eq!(refs[1].dataset_id, "b");
    let tables = table_references(listing(vec![table_ref("p", "a", "x"), table_ref("p", "a", "y")]));
    assert_eq!(tables, vec![table_ref("p", "a", "x"), table_ref("p", "a", "y")]);
    assert!(dataset_references(DatasetList { datasets: vec![] }).is_empty());
}

#[test]
fn all_listings_succeeding_are_concatenated() {
    let r = list_project_tables(vec![
        Ok(listing(vec![table_ref("p", "a", "x")])),
        Ok(listing(vec![])),
        Ok(listing(vec![table_ref("p", "c", "y"), table_ref("p", "c", "z")])),
    ]);
    assert_eq!(
        r,
        Ok(vec![
            table_ref("p", "a", "x"),
            table_ref("p", "c", "y"),
            table_ref("p", "c", "z")
        ])
    );
    assert_eq!(list_project_tables(vec![]), Ok(vec![]));
}

#[test]
fn one_failed_listing_fails_the_enumeration() {
    let r = list_project_tables(vec![
        Ok(listing(vec![table_ref("p", "a", "x")])),
        Err(SearchError::Enumeration("dataset b".to_string())),
        Ok(listing(vec![table_ref("p", "c", "y")])),
        Err(SearchError::Enumeration("dataset d".to_string())),
    ]);
    assert_eq!(r, Err(SearchError::Enumeration("dataset b".to_string())));
}

#[test]
fn one_failed_fetch_is_dropped() {
    let a = table_ref("p", "d", "a");
    let b = table_ref("p", "d", "b");
    let c = table_ref("p", "d", "c");
    let (tables, failures) = get_tables(vec![
        (a.clone(), Ok(Some(Schema { fields: vec![] }))),
        (b.clone(), Err("timed out".to_string())),
        (c.clone(), Ok(None)),
    ]);
    assert_eq!(tables.len(), 2);
    assert_eq!(tables[0].table_reference, a);
    assert_eq!(tables[0].schema, Some(Schema { fields: vec![] }));
    assert_eq!(tables[1].table_reference, c);
    assert_eq!(tables[1].schema, None);
    assert!(tables.iter().all(|t| t.table_reference != b));
    assert_eq!(failures, vec![SearchError::Fetch(b, "timed out".to_string())]);
}

#[test]
fn empty_schema_and_absent_schema_render_differently() {
    let empty = render(&Table {
        table_reference: table_ref("p", "d", "t"),
        schema: Some(Schema { fields: vec![] }),
    });
    let absent = render(&Table {
        table_reference: table_ref("p", "d", "t"),
        schema: None,
    });
    assert_eq!(empty, "\n=== Table: p.d.t ===\n");
    assert_eq!(column_lines(&empty), 0);
    assert_eq!(absent, "\n=== Table: p.d.t ===\nNo schema available for p.d.t\n");
    assert_eq!(absent.lines().filter(|l| l.starts_with("No schema available")).count(), 1);
    assert_ne!(empty, absent);
}

#[test]
fn nested_record_renders_children_one_level_deeper() {
    let record = column(
        "address",
        "RECORD",
        Some("NULLABLE"),
        Some(vec![
            column("street", "STRING", None, None),
            column("zip", "INTEGER", Some("NULLABLE"), None),
        ]),
    );
    let text = render(&Table {
        table_reference: table_ref("p", "d", "t"),
        schema: Some(Schema {
            fields: vec![record, column("id", "INTEGER", None, None)],
        }),
    });
    assert_eq!(
        text,
        "\n=== Table: p.d.t ===\n\
         |- address (RECORD) [NULLABLE]\n  \
         |- street (STRING) [REQUIRED]\n  \
         |- zip (INTEGER) [NULLABLE]\n\
         |- id (INTEGER) [REQUIRED]\n"
    );
}

#[test]
fn deeper_nesting_keeps_indenting() {
    let inner = column("c", "RECORD", Some("REPEATED"), Some(vec![column("d", "BOOL", None, None)]));
    let text = render(&Table {
        table_reference: table_ref("p", "d", "t"),
        schema: Some(Schema {
            fields: vec![column("b", "RECORD", None, Some(vec![inner]))],
        }),
    });
    assert_eq!(
        text,
        "\n=== Table: p.d.t ===\n|- b (RECORD) [REQUIRED]\n  |- c (RECORD) [REPEATED]\n    |- d (BOOL) [REQUIRED]\n"
    );
}

#[test]
fn unset_mode_renders_as_required() {
    let text = render(&Table {
        table_reference: table_ref("p", "d", "t"),
        schema: Some(Schema {
            fields: vec![
                column("a", "STRING", None, None),
                column("b", "STRING", Some("NULLABLE"), None),
            ],
        }),
    });
    let lines: Vec<&str> = text.lines().collect();
    assert_eq!(lines[2], "|- a (STRING) [REQUIRED]");
    assert_eq!(lines[3], "|- b (STRING) [NULLABLE]");
}

#[test]
fn rendering_appends_to_what_was_written() {
    let mut out = String::from("before");
    write_table(
        &mut out,
        &Table {
            table_reference: table_ref("p", "d", "t"),
            schema: None,
        },
    );
    assert_eq!(out, "before\n=== Table: p.d.t ===\nNo schema available for p.d.t\n");
}

#[test]
fn references_are_offered_one_per_line() {
    assert_eq!(tables_to_string(vec![]), "");
    assert_eq!(tables_to_string(vec![table_ref("p", "d", "t")]), "p.d.t");
    assert_eq!(
        tables_to_string(vec![table_ref("p", "d", "t"), table_ref("q", "e", "u")]),
        "p.d.t\nq.e.u"
    );
}

#[test]
fn malformed_selections_are_skipped_and_reported() {
    let items = vec![
        "p.d.t".to_string(),
        "broken".to_string(),
        "q.e.u".to_string(),
        "a..b".to_string(),
    ];
    let (tables, errors) = parse_selection(&items);
    assert_eq!(tables, vec![table_ref("p", "d", "t"), table_ref("q", "e", "u")]);
    assert_eq!(
        errors,
        vec![
            "Invalid table reference: broken".to_string(),
            "Invalid table reference: a..b".to_string()
        ]
    );
}

#[test]
fn project_to_rendered_output() {
    let datasets = dataset_references(DatasetList {
        datasets: vec![
            Dataset {
                dataset_reference: DatasetReference {
                    project_id: "proj".to_string(),
                    dataset_id: "a".to_string(),
                },
            },
            Dataset {
                dataset_reference: DatasetReference {
                    project_id: "proj".to_string(),
                    dataset_id: "b".to_string(),
                },
            },
        ],
    });
    assert_eq!(datasets.len(), 2);
    let listings = vec![
        Ok(listing(vec![table_ref("proj", "a", "t1")])),
        Ok(listing(vec![table_ref("proj", "b", "t2"), table_ref("proj", "b", "t3")])),
    ];
    let all = list_project_tables(listings).unwrap();
    assert_eq!(all.len(), 3);

    let offered = tables_to_string(all);
    let chosen: Vec<String> = offered
        .lines()
        .filter(|l| *l != "proj.b.t2")
        .map(|l| l.to_string())
        .collect();
    let (selected, errors) = parse_selection(&chosen);
    assert!(errors.is_empty());
    assert_eq!(selected.len(), 2);

    let mut outcomes = Vec::new();
    for r in selected {
        if r.table_id == "t1" {
            let schema = Schema {
                fields: vec![
                    column("id", "INTEGER", None, None),
                    column("name", "STRING", Some("NULLABLE"), None),
                ],
            };
            outcomes.push((r, Ok(Some(schema))));
        } else {
            outcomes.push((r, Err("permission denied".to_string())));
        }
    }
    let (tables, failures) = get_tables(outcomes);
    assert_eq!(failures.len(), 1);

    let mut out = String::new();
    for t in &tables {
        write_table(&mut out, t);
    }
    assert_eq!(out.matches("=== Table: ").count(), 1);
    assert_eq!(column_lines(&out), 2);
    assert_eq!(
        out,
        "\n=== Table: proj.a.t1 ===\n|- id (INTEGER) [REQUIRED]\n|- name (STRING) [NULLABLE]\n"
    );
}
