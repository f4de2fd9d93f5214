use vstd::prelude::*;

use crate::types::{
    Dataset, DatasetList, DatasetReference, Schema, SearchError, Table, TableList, TableReference,
};

verus! {

/// The root of the metadata API under which each project's resources stand.
pub open spec fn api_root() -> Seq<char> {
    "https://bigquery.googleapis.com/bigquery/v2/projects/"@
}

/// Where the datasets of a project are listed.
pub open spec fn datasets_url_of(project_id: Seq<char>) -> Seq<char> {
    api_root() + project_id + "/datasets"@
}

/// Where the tables of a dataset are listed.
pub open spec fn tables_url_of(d: DatasetReference) -> Seq<char> {
    api_root() + d.project_id@ + "/datasets/"@ + d.dataset_id@ + "/tables"@
}

/// Where a table, with its schema, is fetched.
pub open spec fn table_url_of(t: TableReference) -> Seq<char> {
    api_root() + t.project_id@ + "/datasets/"@ + t.dataset_id@ + "/tables/"@ + t.table_id@
}

/// The references that a table listing holds, in order.
pub open spec fn listed_references(l: TableList) -> Seq<TableReference> {
    l.tables@.map_values(|t: Table| t.table_reference)
}

/// Every dataset's table listing succeeded.
pub open spec fn all_listed(s: Seq<Result<TableList, SearchError>>) -> bool {
    forall|i: int| 0 <= i < s.len() ==> s[i] is Ok
}

/// The references of all listings, one listing after the other.
pub open spec fn concat_listed(s: Seq<Result<TableList, SearchError>>) -> Seq<TableReference>
    decreases s.len(),
{
    if s.len() == 0 {
        Seq::empty()
    } else {
        concat_listed(s.drop_last()) + match s.last() {
            Ok(l) => listed_references(l),
            Err(_) => Seq::empty(),
        }
    }
}

/// `e` is the first failure among the listings.
pub open spec fn is_first_failure(s: Seq<Result<TableList, SearchError>>, e: SearchError) -> bool {
    exists|i: int|
        0 <= i < s.len() && s[i] == Err::<TableList, SearchError>(e) && all_listed(s.take(i))
}

/// The outcome of fetching one table: the reference asked for, and either
/// the table's schema (absent where the table has none) or why it failed.
pub type FetchOutcome = (TableReference, Result<Option<Schema>, String>);

/// The tables whose fetch succeeded, in order, each with its schema.
pub open spec fn fetched_tables(s: Seq<FetchOutcome>) -> Seq<Table>
    decreases s.len(),
{
    if s.len() == 0 {
        Seq::empty()
    } else {
        fetched_tables(s.drop_last()) + match s.last().1 {
            Ok(schema) => seq![Table { table_reference: s.last().0, schema }],
            Err(_) => Seq::empty(),
        }
    }
}

/// The failed fetches, in order, each with the reference it was for.
pub open spec fn fetch_failures(s: Seq<FetchOutcome>) -> Seq<SearchError>
    decreases s.len(),
{
    if s.len() == 0 {
        Seq::empty()
    } else {
        fetch_failures(s.drop_last()) + match s.last().1 {
            Ok(_) => Seq::empty(),
            Err(m) => seq![SearchError::Fetch(s.last().0, m)],
        }
    }
}

proof fn lemma_all_fetched(s: Seq<FetchOutcome>)
    requires
        forall|i: int| 0 <= i < s.len() ==> s[i].1 is Ok,
    ensures
        fetched_tables(s).len() == s.len(),
        forall|i: int|
            0 <= i < s.len() ==> #[trigger] fetched_tables(s)[i].table_reference == s[i].0,
        fetch_failures(s).len() == 0,
    decreases s.len(),
{
    if s.len() > 0 {
        lemma_all_fetched(s.drop_last());
    }
}

/// Where exactly one of N fetches fails, and the references asked for are
/// distinct, N - 1 tables come back: those of the other references, in their
/// order, and never the failed one; the failure alone is reported.
pub proof fn lemma_one_failed_fetch_dropped(s: Seq<FetchOutcome>, k: int)
    requires
        0 <= k < s.len(),
        s[k].1 is Err,
        forall|i: int| 0 <= i < s.len() && i != k ==> s[i].1 is Ok,
        forall|i: int, j: int| 0 <= i < j < s.len() ==> s[i].0 != s[j].0,
    ensures
        fetched_tables(s).len() == s.len() - 1,
        forall|i: int|
            0 <= i < s.len() - 1 ==> #[trigger] fetched_tables(s)[i].table_reference == (if i < k {
                s[i].0
            } else {
                s[i + 1].0
            }),
        forall|i: int|
            0 <= i < s.len() - 1 ==> #[trigger] fetched_tables(s)[i].table_reference != s[k].0,
        fetch_failures(s) == seq![SearchError::Fetch(s[k].0, s[k].1->Err_0)],
    decreases s.len(),
{
    if k == s.len() - 1 {
        lemma_all_fetched(s.drop_last());
        assert(fetch_failures(s) =~= seq![SearchError::Fetch(s[k].0, s[k].1->Err_0)]);
    } else {
        let p = s.drop_last();
        lemma_one_failed_fetch_dropped(p, k);
        let f = fetched_tables(s);
        assert(f =~= fetched_tables(p) + seq![
            Table { table_reference: s.last().0, schema: s.last().1->Ok_0 },
        ]);
        assert(fetch_failures(s) =~= fetch_failures(p));
    }
}

/// The address at which the datasets of `project_id` are listed.
pub fn datasets_url(project_id: &str) -> (r: String)
    ensures
        r@ == datasets_url_of(project_id@),
{
    let mut r = "https://bigquery.googleapis.com/bigquery/v2/projects/".to_owned();
    r.append(project_id);
    r.append("/datasets");
    r
}

/// The address at which the tables of `dataset` are listed.
pub fn tables_url(dataset: &DatasetReference) -> (r: String)
    ensures
        r@ == tables_url_of(*dataset),
{
    let mut r = "https://bigquery.googleapis.com/bigquery/v2/projects/".to_owned();
    r.append(dataset.project_id.as_str());
    r.append("/datasets/");
    r.append(dataset.dataset_id.as_str());
    r.append("/tables");
    r
}

/// The address at which `table` is fetched with its schema.
pub fn table_url(table: &TableReference) -> (r: String)
    ensures
        r@ == table_url_of(*table),
{
    let mut r = "https://bigquery.googleapis.com/bigquery/v2/projects/".to_owned();
    r.append(table.project_id.as_str());
    r.append("/datasets/");
    r.append(table.dataset_id.as_str());
    r.append("/tables/");
    r.append(table.table_id.as_str());
    r
}

/// The references of the datasets of a dataset listing, in order.
pub fn dataset_references(list: DatasetList) -> (r: Vec<DatasetReference>)
    ensures
        r@ == list.datasets@.map_values(|d: Dataset| d.dataset_reference),
{
    let ghost all = list.datasets@;
    let mut out: Vec<DatasetReference> = Vec::new();
    for d in it: list.datasets.into_iter()
        invariant
            it.seq() == all,
            out@ == all.take(it.index()).map_values(|d: Dataset| d.dataset_reference),
    {
        out.push(d.dataset_reference);
    }
    out
}

/// The references of the tables of a table listing, in order.
pub fn table_references(list: TableList) -> (r: Vec<TableReference>)
    ensures
        r@ == listed_references(list),
{
    let ghost all = list.tables@;
    let mut out: Vec<TableReference> = Vec::new();
    for t in it: list.tables.into_iter()
        invariant
            it.seq() == all,
            out@ == all.take(it.index()).map_values(|t: Table| t.table_reference),
    {
        out.push(t.table_reference);
    }
    out
}

/// Gathers the table listings of all datasets of a project, all or nothing:
/// the references of every listing, in order, where each listing succeeded;
/// else the first failure, and no reference at all.
pub fn list_project_tables(listings: Vec<Result<TableList, SearchError>>) -> (r: Result<
    Vec<TableReference>,
    SearchError,
>)
    ensures
        r is Ok <==> all_listed(listings@),
        r matches Ok(v) ==> v@ == concat_listed(listings@),
        r matches Err(e) ==> is_first_failure(listings@, e),
{
    let ghost all = listings@;
    let mut out: Vec<TableReference> = Vec::new();
    for listing in it: listings.into_iter()
        invariant
            it.seq() == all,
            it.index() <= all.len(),
            all_listed(all.take(it.index())),
            out@ == concat_listed(all.take(it.index())),
    {
        let ghost k = it.index();
        assert(listing == all[k]);
        match listing {
            Ok(list) => {
                let mut refs = table_references(list);
                out.append(&mut refs);
                assert(all.take(k + 1).drop_last() =~= all.take(k));
            },
            Err(e) => {
                return Err(e);
            },
        }
    }
    assert(all.take(all.len() as int) =~= all);
    Ok(out)
}

/// Gathers the outcomes of fetching tables, tolerating failures: the tables
/// whose fetch succeeded, each with the schema that came back, and apart
/// from them the failures, each with the reference it was for. A failed
/// fetch neither stops the others nor stands among the tables.
pub fn get_tables(fetched: Vec<FetchOutcome>) -> (r: (Vec<Table>, Vec<SearchError>))
    ensures
        r.0@ == fetched_tables(fetched@),
        r.1@ == fetch_failures(fetched@),
{
    let ghost all = fetched@;
    let mut tables: Vec<Table> = Vec::new();
    let mut failures: Vec<SearchError> = Vec::new();
    for outcome in it: fetched.into_iter()
        invariant
            it.seq() == all,
            it.index() <= all.len(),
            tables@ == fetched_tables(all.take(it.index())),
            failures@ == fetch_failures(all.take(it.index())),
    {
        let ghost k = it.index();
        assert(outcome == all[k]);
        assert(all.take(k + 1).drop_last() =~= all.take(k));
        let (table_reference, result) = outcome;
        match result {
            Ok(schema) => tables.push(Table { table_reference, schema }),
            Err(m) => failures.push(SearchError::Fetch(table_reference, m)),
        }
    }
    assert(all.take(all.len() as int) =~= all);
    (tables, failures)
}

} // verus!
