use vstd::prelude::*;

verus! {

/// The body of a dataset listing.
#[derive(Debug, Clone, PartialEq, Eq)]
pub struct DatasetList {
    pub datasets: Vec<Dataset>,
}

/// One entry of a dataset listing.
#[derive(Debug, Clone, PartialEq, Eq)]
pub struct Dataset {
    pub dataset_reference: DatasetReference,
}

/// The address of a dataset within a project.
#[derive(Debug, Clone, PartialEq, Eq)]
pub struct DatasetReference {
    pub project_id: String,
    pub dataset_id: String,
}

/// The body of a table listing.
#[derive(Debug, PartialEq, Eq)]
pub struct TableList {
    pub tables: Vec<Table>,
}

/// A table, with its schema once that has been fetched.
#[derive(Debug, PartialEq, Eq)]
pub struct Table {
    pub table_reference: TableReference,
    pub schema: Option<Schema>,
}

/// The three-part address of a table.
#[derive(Debug, Clone, PartialEq, Eq)]
pub struct TableReference {
    pub project_id: String,
    pub dataset_id: String,
    pub table_id: String,
}

/// The ordered top-level columns of a table.
#[derive(Debug, PartialEq, Eq)]
pub struct Schema {
    pub fields: Vec<Column>,
}

/// A column; a record column owns its child columns.
#[derive(Debug, PartialEq, Eq)]
pub struct Column {
    pub name: String,
    pub field_type: String,
    pub mode: Option<String>,
    pub fields: Option<Vec<Column>>,
}

/// The failures that the discovery pipeline distinguishes.
#[derive(Debug, Clone, PartialEq, Eq)]
pub enum SearchError {
    /// Reading the credentials or exchanging them for a token failed.
    Auth(String),
    /// A dataset or table listing failed.
    Enumeration(String),
    /// The schema of the given table could not be fetched.
    Fetch(TableReference, String),
    /// A text was not a table reference.
    Parse(String),
    /// Writing the given table to the output failed.
    Io(TableReference, String),
}

/// `s` holds no dot.
pub open spec fn is_dot_free(s: Seq<char>) -> bool {
    forall|k: int| 0 <= k < s.len() ==> s[k] != '.'
}

/// One segment of a canonical table reference: non-empty and without a dot.
pub open spec fn is_segment(s: Seq<char>) -> bool {
    s.len() > 0 && is_dot_free(s)
}

/// The number of dots in `s`.
pub open spec fn dot_count(s: Seq<char>) -> nat {
    s.filter(|c: char| c == '.').len()
}

/// Three segments joined by dots.
pub open spec fn dotted(p: Seq<char>, d: Seq<char>, t: Seq<char>) -> Seq<char> {
    p + seq!['.'] + d + seq!['.'] + t
}

/// `s` is the canonical text `project.dataset.table` of some reference.
pub open spec fn is_reference_text(s: Seq<char>) -> bool {
    exists|p: Seq<char>, d: Seq<char>, t: Seq<char>|
        is_segment(p) && is_segment(d) && is_segment(t) && s == dotted(p, d, t)
}

/// The three segments of a canonical reference text.
pub open spec fn segments_of(s: Seq<char>) -> (Seq<char>, Seq<char>, Seq<char>)
    recommends
        is_reference_text(s),
{
    choose|x: (Seq<char>, Seq<char>, Seq<char>)|
        is_segment(x.0) && is_segment(x.1) && is_segment(x.2) && s == dotted(x.0, x.1, x.2)
}

/// Two ways of writing one text as three dot-free parts joined by dots are
/// the same way.
pub proof fn lemma_dotted_injective(
    pa: Seq<char>,
    da: Seq<char>,
    ta: Seq<char>,
    pb: Seq<char>,
    db: Seq<char>,
    tb: Seq<char>,
)
    requires
        is_dot_free(pa) && is_dot_free(da) && is_dot_free(ta),
        is_dot_free(pb) && is_dot_free(db) && is_dot_free(tb),
        dotted(pa, da, ta) == dotted(pb, db, tb),
    ensures
        pa == pb && da == db && ta == tb,
{
    let s = dotted(pa, da, ta);
    assert(s[pa.len() as int] == '.');
    assert(s[pb.len() as int] == '.');
    if pa.len() < pb.len() {
        assert(s[pa.len() as int] == pb[pa.len() as int]);
    }
    if pb.len() < pa.len() {
        assert(s[pb.len() as int] == pa[pb.len() as int]);
    }
    assert(pa =~= s.subrange(0, pa.len() as int));
    assert(pb =~= s.subrange(0, pb.len() as int));
    let o: int = pa.len() as int + 1;
    assert(s[o + da.len() as int] == '.');
    assert(s[o + db.len() as int] == '.');
    if da.len() < db.len() {
        assert(s[o + da.len() as int] == db[da.len() as int]);
    }
    if db.len() < da.len() {
        assert(s[o + db.len() as int] == da[db.len() as int]);
    }
    assert(da =~= s.subrange(o, o + da.len() as int));
    assert(db =~= s.subrange(o, o + db.len() as int));
    assert(ta =~= s.subrange(o + da.len() as int + 1, s.len() as int));
    assert(tb =~= s.subrange(o + db.len() as int + 1, s.len() as int));
}

/// The segments chosen for a canonical reference text are segments of it.
pub proof fn lemma_segments_of(s: Seq<char>)
    requires
        is_reference_text(s),
    ensures
        ({
            let (p, d, t) = segments_of(s);
            is_segment(p) && is_segment(d) && is_segment(t) && s == dotted(p, d, t)
        }),
{
    let (p, d, t) = choose|p: Seq<char>, d: Seq<char>, t: Seq<char>|
        is_segment(p) && is_segment(d) && is_segment(t) && s == dotted(p, d, t);
    let x = (p, d, t);
    assert(is_segment(x.0) && is_segment(x.1) && is_segment(x.2) && s == dotted(x.0, x.1, x.2));
}

/// Where the dots of a canonical reference text stand: after the project
/// segment and after the dataset segment, and nowhere else.
pub proof fn lemma_reference_dots(s: Seq<char>)
    requires
        is_reference_text(s),
    ensures
        ({
            let (p, d, t) = segments_of(s);
            let first = p.len() as int;
            let second = first + 1 + d.len();
            &&& 0 < first && first + 1 < second && second + 1 < s.len()
            &&& s[first] == '.' && s[second] == '.'
            &&& forall|k: int| 0 <= k < s.len() && k != first && k != second ==> s[k] != '.'
        }),
{
    lemma_segments_of(s);
    let (p, d, t) = segments_of(s);
    let first = p.len() as int;
    let second = first + 1 + d.len();
    assert forall|k: int| 0 <= k < s.len() && k != first && k != second implies s[k] != '.' by {
        if k < first {
            assert(s[k] == p[k]);
        } else if k < second {
            assert(s[k] == d[k - first - 1]);
        } else {
            assert(s[k] == t[k - second - 1]);
        }
    }
}

proof fn lemma_dot_free_count(s: Seq<char>)
    requires
        is_dot_free(s),
    ensures
        dot_count(s) == 0,
{
    let pred = |c: char| c == '.';
    if s.filter(pred).len() > 0 {
        let c = s.filter(pred)[0];
        s.lemma_filter_pred(pred, 0);
        s.lemma_filter_contains_rev(pred, c);
    }
}

/// A canonical reference text holds exactly two dots: a text with fewer or
/// more is not one, and parsing rejects it.
pub proof fn lemma_reference_has_two_dots(s: Seq<char>)
    requires
        is_reference_text(s),
    ensures
        dot_count(s) == 2,
{
    lemma_segments_of(s);
    let (p, d, t) = segments_of(s);
    let pred = |c: char| c == '.';
    let dot = seq!['.'];
    Seq::filter_distributes_over_add(p + dot + d + dot, t, pred);
    Seq::filter_distributes_over_add(p + dot + d, dot, pred);
    Seq::filter_distributes_over_add(p + dot, d, pred);
    Seq::filter_distributes_over_add(p, dot, pred);
    lemma_dot_free_count(p);
    lemma_dot_free_count(d);
    lemma_dot_free_count(t);
    reveal_with_fuel(Seq::filter, 2);
    assert(dot.drop_last() =~= Seq::<char>::empty());
    assert(dot.filter(pred).len() == 1);
}

/// Three dot-free parts joined by dots, one of them empty, do not form a
/// reference text: parsing rejects a text with an empty segment.
pub proof fn lemma_empty_segment_rejected(p: Seq<char>, d: Seq<char>, t: Seq<char>)
    requires
        is_dot_free(p) && is_dot_free(d) && is_dot_free(t),
        p.len() == 0 || d.len() == 0 || t.len() == 0,
    ensures
        !is_reference_text(dotted(p, d, t)),
{
    if is_reference_text(dotted(p, d, t)) {
        lemma_segments_of(dotted(p, d, t));
        let x = segments_of(dotted(p, d, t));
        lemma_dotted_injective(p, d, t, x.0, x.1, x.2);
    }
}

/// Formatting the parts that parsing finds in a reference text gives that
/// text back.
pub proof fn lemma_format_after_parse(s: Seq<char>)
    requires
        is_reference_text(s),
    ensures
        ({
            let (p, d, t) = segments_of(s);
            dotted(p, d, t) == s
        }),
{
    lemma_segments_of(s);
}

/// Parsing the canonical text of a valid reference gives its parts back.
pub proof fn lemma_parse_after_format(r: TableReference)
    requires
        r.is_valid(),
    ensures
        is_reference_text(r.canonical()),
        segments_of(r.canonical()) == (r.project_id@, r.dataset_id@, r.table_id@),
{
    let s = r.canonical();
    assert(is_segment(r.project_id@) && is_segment(r.dataset_id@) && is_segment(r.table_id@)
        && s == dotted(r.project_id@, r.dataset_id@, r.table_id@));
    lemma_segments_of(s);
    let x = segments_of(s);
    lemma_dotted_injective(r.project_id@, r.dataset_id@, r.table_id@, x.0, x.1, x.2);
}

impl TableReference {
    /// The canonical text `project.dataset.table` of this reference.
    pub open spec fn canonical(&self) -> Seq<char> {
        dotted(self.project_id@, self.dataset_id@, self.table_id@)
    }

    /// Each of the three parts is a segment.
    pub open spec fn is_valid(&self) -> bool {
        is_segment(self.project_id@) && is_segment(self.dataset_id@) && is_segment(
            self.table_id@,
        )
    }

    /// The canonical text of this reference.
    pub fn to_str(&self) -> (r: String)
        ensures
            r@ == self.canonical(),
    {
        let mut r = self.project_id.clone();
        r.append(".");
        r.append(self.dataset_id.as_str());
        r.append(".");
        r.append(self.table_id.as_str());
        proof {
            reveal_strlit(".");
        }
        r
    }

    /// Parses the canonical text `project.dataset.table`: exactly two dots,
    /// and no segment empty.
    pub fn from_str(s: &str) -> (r: Result<TableReference, String>)
        ensures
            r is Ok <==> is_reference_text(s@),
            r matches Ok(t) ==> ({
                &&& t.is_valid()
                &&& t.canonical() == s@
                &&& (t.project_id@, t.dataset_id@, t.table_id@) == segments_of(s@)
            }),
            r matches Err(e) ==> e@ == "Invalid table reference: "@ + s@,
    {
        let n = s.unicode_len();
        let mut first: Option<usize> = None;
        let mut second: Option<usize> = None;
        let mut i: usize = 0;
        while i < n
            invariant
                n == s@.len(),
                i <= n,
                first is None ==> second is None,
                first is None ==> forall|k: int| 0 <= k < i ==> s@[k] != '.',
                first matches Some(a) ==> ({
                    &&& a < i
                    &&& s@[a as int] == '.'
                    &&& forall|k: int| 0 <= k < a ==> s@[k] != '.'
                }),
                first is Some && second is None ==> forall|k: int|
                    first->0 < k < i ==> s@[k] != '.',
                second matches Some(b) ==> ({
                    &&& first matches Some(a) && a < b && forall|k: int| a < k < b ==> s@[k] != '.'
                    &&& b < i
                    &&& s@[b as int] == '.'
                    &&& forall|k: int| b < k < i ==> s@[k] != '.'
                }),
            decreases n - i,
        {
            if s.get_char(i) == '.' {
                if first.is_none() {
                    first = Some(i);
                } else if second.is_none() {
                    second = Some(i);
                } else {
                    proof {
                        if is_reference_text(s@) {
                            lemma_reference_dots(s@);
                        }
                    }
                    return Err(invalid_reference(s));
                }
            }
            i += 1;
        }
        if let (Some(a), Some(b)) = (first, second) {
            if 0 < a && a + 1 < b && b + 1 < n {
                let t = TableReference {
                    project_id: s.substring_char(0, a).to_owned(),
                    dataset_id: s.substring_char(a + 1, b).to_owned(),
                    table_id: s.substring_char(b + 1, n).to_owned(),
                };
                proof {
                    assert(s@ =~= dotted(t.project_id@, t.dataset_id@, t.table_id@));
                    assert(is_segment(t.project_id@));
                    assert(is_segment(t.dataset_id@));
                    assert(is_segment(t.table_id@));
                    lemma_segments_of(s@);
                    let x = segments_of(s@);
                    lemma_dotted_injective(
                        t.project_id@,
                        t.dataset_id@,
                        t.table_id@,
                        x.0,
                        x.1,
                        x.2,
                    );
                }
                return Ok(t);
            }
        }
        proof {
            if is_reference_text(s@) {
                lemma_reference_dots(s@);
            }
        }
        Err(invalid_reference(s))
    }
}

/// The message of a failed parse.
fn invalid_reference(s: &str) -> (e: String)
    ensures
        e@ == "Invalid table reference: "@ + s@,
{
    let mut e = "Invalid table reference: ".to_owned();
    e.append(s);
    e
}

} // verus!
