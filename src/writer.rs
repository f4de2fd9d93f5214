use vstd::prelude::*;

use crate::types::{Column, Schema, Table, TableReference};

verus! {

/// The mode shown for a column: its own, or `REQUIRED` where it has none.
pub open spec fn mode_text(c: Column) -> Seq<char> {
    match c.mode {
        Some(m) => m@,
        None => "REQUIRED"@,
    }
}

/// The indentation added for each level of nesting.
pub open spec fn indent_unit() -> Seq<char> {
    "  "@
}

/// The line of one column: `<indent>|- <name> (<type>) [<mode>]`.
pub open spec fn column_line(c: Column, indent: Seq<char>) -> Seq<char> {
    indent + "|- "@ + c.name@ + " ("@ + c.field_type@ + ") ["@ + mode_text(c) + "]\n"@
}

/// A column and all its descendants, depth first, each parent before its
/// children, the children one indentation unit deeper.
pub open spec fn column_text(c: Column, indent: Seq<char>) -> Seq<char>
    decreases c,
{
    column_line(c, indent) + match c.fields {
        Some(fs) => columns_text(fs@, indent + indent_unit()),
        None => Seq::empty(),
    }
}

/// The texts of a sequence of sibling columns, in order.
pub open spec fn columns_text(cs: Seq<Column>, indent: Seq<char>) -> Seq<char>
    decreases cs,
{
    if cs.len() == 0 {
        Seq::empty()
    } else {
        columns_text(cs.drop_last(), indent) + column_text(cs.last(), indent)
    }
}

/// The line that opens the section of a table.
pub open spec fn header_line(r: TableReference) -> Seq<char> {
    "\n=== Table: "@ + r.canonical() + " ===\n"@
}

/// The line written for a table whose schema is absent.
pub open spec fn absent_line(r: TableReference) -> Seq<char> {
    "No schema available for "@ + r.canonical() + "\n"@
}

/// The whole section of a table.
pub open spec fn table_text(t: Table) -> Seq<char> {
    header_line(t.table_reference) + match t.schema {
        Some(s) => columns_text(s.fields@, Seq::empty()),
        None => absent_line(t.table_reference),
    }
}

/// A table with an empty schema renders as its header alone; one whose schema
/// is absent renders as its header and one line saying so. The two differ.
pub proof fn lemma_absent_differs_from_empty(r: TableReference, empty: Schema)
    requires
        empty.fields@.len() == 0,
    ensures
        table_text((Table { table_reference: r, schema: Some(empty) })) == header_line(r),
        table_text((Table { table_reference: r, schema: None })) == header_line(r) + absent_line(
            r,
        ),
        table_text((Table { table_reference: r, schema: Some(empty) })) != table_text(
            (Table { table_reference: r, schema: None }),
        ),
{
    let present = Table { table_reference: r, schema: Some(empty) };
    let absent = Table { table_reference: r, schema: None };
    assert(table_text(present) =~= header_line(r));
    assert(absent_line(r).len() > 0) by {
        reveal_strlit("\n");
    }
    assert(table_text(absent).len() > table_text(present).len());
}

/// A record column with two leaf children renders as its own line followed by
/// the two child lines, in declared order, one indentation unit deeper.
pub proof fn lemma_nested_record(c: Column, indent: Seq<char>)
    requires
        c.fields is Some,
        c.fields->Some_0@.len() == 2,
        c.fields->Some_0@[0].fields is None,
        c.fields->Some_0@[1].fields is None,
    ensures
        column_text(c, indent) == column_line(c, indent) + column_line(
            c.fields->Some_0@[0],
            indent + indent_unit(),
        ) + column_line(c.fields->Some_0@[1], indent + indent_unit()),
{
    let fs = c.fields->Some_0@;
    let ci = indent + indent_unit();
    assert(fs.drop_last().drop_last().len() == 0);
    assert(fs.drop_last().last() == fs[0]);
    assert(columns_text(fs.drop_last().drop_last(), ci) =~= Seq::empty());
    assert(column_text(fs[0], ci) =~= column_line(fs[0], ci));
    assert(column_text(fs[1], ci) =~= column_line(fs[1], ci));
    assert(columns_text(fs.drop_last(), ci) =~= column_line(fs[0], ci));
    assert(columns_text(fs, ci) =~= column_line(fs[0], ci) + column_line(fs[1], ci));
    assert(column_text(c, indent) =~= column_line(c, indent) + column_line(fs[0], ci)
        + column_line(fs[1], ci));
}

/// Appends the text of `column` and its descendants at `indent`.
fn write_column(out: &mut String, column: &Column, indent: &str)
    ensures
        final(out)@ == old(out)@ + column_text(*column, indent@),
    decreases column,
{
    out.append(indent);
    out.append("|- ");
    out.append(column.name.as_str());
    out.append(" (");
    out.append(column.field_type.as_str());
    out.append(") [");
    match &column.mode {
        Some(m) => out.append(m.as_str()),
        None => out.append("REQUIRED"),
    }
    out.append("]\n");
    let ghost line_end = out@;
    assert(line_end == old(out)@ + column_line(*column, indent@));
    if let Some(fields) = &column.fields {
        let mut child = indent.to_owned();
        child.append("  ");
        let mut i: usize = 0;
        while i < fields.len()
            invariant
                column.fields == Some(*fields),
                child@ == indent@ + indent_unit(),
                i <= fields.len(),
                out@ == line_end + columns_text(fields@.take(i as int), child@),
            decreases fields.len() - i,
        {
            proof {
                vstd::std_specs::vec::axiom_vec_index_decreases(*fields, i as int);
                assert(decreases_to!(*column => column.fields));
                assert(decreases_to!(column.fields => column.fields->Some_0));
                assert(decreases_to!(*column => fields@[i as int]));
            }
            write_column(out, &fields[i], child.as_str());
            assert(fields@.take(i + 1).drop_last() =~= fields@.take(i as int));
            i += 1;
        }
        assert(fields@.take(fields.len() as int) =~= fields@);
    }
}

/// Appends the section of `table`: its header line, then either the lines of
/// its columns, or one line saying that it has no schema.
pub fn write_table(out: &mut String, table: &Table)
    ensures
        final(out)@ == old(out)@ + table_text(*table),
{
    let name = table.table_reference.to_str();
    out.append("\n=== Table: ");
    out.append(name.as_str());
    out.append(" ===\n");
    match &table.schema {
        Some(schema) => {
            proof {
                reveal_strlit("");
                assert(""@ =~= Seq::<char>::empty());
            }
            let ghost start = out@;
            let mut i: usize = 0;
            while i < schema.fields.len()
                invariant
                    ""@ == Seq::<char>::empty(),
                    i <= schema.fields.len(),
                    out@ == start + columns_text(schema.fields@.take(i as int), Seq::empty()),
                decreases schema.fields.len() - i,
            {
                write_column(out, &schema.fields[i], "");
                assert(schema.fields@.take(i + 1).drop_last() =~= schema.fields@.take(i as int));
                i += 1;
            }
            assert(schema.fields@.take(schema.fields.len() as int) =~= schema.fields@);
        },
        None => {
            out.append("No schema available for ");
            out.append(name.as_str());
            out.append("\n");
        },
    }
}

} // verus!
