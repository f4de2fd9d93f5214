use vstd::prelude::*;

use crate::types::{is_reference_text, TableReference};

verus! {

/// The canonical texts of `s`, one per line.
pub open spec fn joined_lines(s: Seq<TableReference>) -> Seq<char>
    decreases s.len(),
{
    if s.len() == 0 {
        Seq::empty()
    } else if s.len() == 1 {
        s[0].canonical()
    } else {
        joined_lines(s.drop_last()) + "\n"@ + s.last().canonical()
    }
}

/// The selected texts that are canonical references, in order.
pub open spec fn accepted_texts(s: Seq<String>) -> Seq<Seq<char>>
    decreases s.len(),
{
    if s.len() == 0 {
        Seq::empty()
    } else if is_reference_text(s.last()@) {
        accepted_texts(s.drop_last()).push(s.last()@)
    } else {
        accepted_texts(s.drop_last())
    }
}

/// The messages for the selected texts that are not references, in order.
pub open spec fn rejection_messages(s: Seq<String>) -> Seq<Seq<char>>
    decreases s.len(),
{
    if s.len() == 0 {
        Seq::empty()
    } else if is_reference_text(s.last()@) {
        rejection_messages(s.drop_last())
    } else {
        rejection_messages(s.drop_last()).push("Invalid table reference: "@ + s.last()@)
    }
}

/// The canonical texts of `tables`, one per line, as offered for selection.
pub fn tables_to_string(tables: Vec<TableReference>) -> (r: String)
    ensures
        r@ == joined_lines(tables@),
{
    let mut r = String::new();
    let mut i: usize = 0;
    while i < tables.len()
        invariant
            i <= tables.len(),
            r@ == joined_lines(tables@.take(i as int)),
        decreases tables.len() - i,
    {
        let line = tables[i].to_str();
        if i > 0 {
            r.append("\n");
        }
        r.append(line.as_str());
        assert(tables@.take(i + 1).drop_last() =~= tables@.take(i as int));
        i += 1;
    }
    assert(tables@.take(tables.len() as int) =~= tables@);
    r
}

/// Parses the selected lines one by one: the references of those that parse,
/// in order, and apart from them the message for each line that does not.
/// A line that does not parse stops nothing.
pub fn parse_selection(items: &Vec<String>) -> (r: (Vec<TableReference>, Vec<String>))
    ensures
        r.0@.map_values(|t: TableReference| t.canonical()) == accepted_texts(items@),
        forall|i: int| 0 <= i < r.0@.len() ==> #[trigger] r.0@[i].is_valid(),
        r.1@.map_values(|m: String| m@) == rejection_messages(items@),
{
    let mut tables: Vec<TableReference> = Vec::new();
    let mut errors: Vec<String> = Vec::new();
    let mut i: usize = 0;
    while i < items.len()
        invariant
            i <= items.len(),
            tables@.map_values(|t: TableReference| t.canonical()) == accepted_texts(
                items@.take(i as int),
            ),
            forall|j: int| 0 <= j < tables@.len() ==> #[trigger] tables@[j].is_valid(),
            errors@.map_values(|m: String| m@) == rejection_messages(items@.take(i as int)),
        decreases items.len() - i,
    {
        assert(items@.take(i + 1).drop_last() =~= items@.take(i as int));
        assert(items@.take(i + 1).last() == items@[i as int]);
        match TableReference::from_str(items[i].as_str()) {
            Ok(t) => {
                tables.push(t);
                assert(tables@.map_values(|t: TableReference| t.canonical()) =~= accepted_texts(
                    items@.take(i + 1),
                ));
            },
            Err(e) => {
                errors.push(e);
                assert(errors@.map_values(|m: String| m@) =~= rejection_messages(
                    items@.take(i + 1),
                ));
            },
        }
        i += 1;
    }
    assert(items@.take(items.len() as int) =~= items@);
    (tables, errors)
}

} // verus!
