//! The report table: a fixed column schema and one row per person that has
//! at least one matching membership, in the order the persons were fed in.

use crate::aggregate::Time;
use vstd::prelude::*;

verus! {

/// One row of the report.
pub struct ReportRow {
    /// The canonical string form of the person's identity.
    pub id: String,
    pub name: String,
    /// Reserved column, always empty.
    pub class: String,
    pub time: Time,
}

/// The contents of a row.
pub struct RowView {
    pub id: Seq<char>,
    pub name: Seq<char>,
    pub class: Seq<char>,
    pub time: Time,
}

impl View for ReportRow {
    type V = RowView;

    open spec fn view(&self) -> RowView {
        RowView { id: self.id@, name: self.name@, class: self.class@, time: self.time }
    }
}

/// The row a person with totals `t` gets.
pub open spec fn row_spec(id: Seq<char>, name: Seq<char>, t: Time) -> RowView {
    RowView { id, name, class: Seq::empty(), time: t }
}

/// The rows after one append: unchanged for `None`, one more row for
/// `Some`.
pub open spec fn appended(rows: Seq<RowView>, id: Seq<char>, name: Seq<char>, result: Option<Time>) -> Seq<RowView> {
    match result {
        None => rows,
        Some(t) => rows.push(row_spec(id, name, t)),
    }
}

/// The column names, in order.
pub open spec fn columns_spec() -> Seq<Seq<char>> {
    seq![
        "id"@,
        "display_name"@,
        "placeholder"@,
        "on_campus"@,
        "off_campus"@,
        "social_practice"@,
        "total"@,
    ]
}

/// The column names of the report, in order.
pub fn column_names() -> (r: Vec<&'static str>)
    ensures
        r@.map_values(|s: &'static str| s@) == columns_spec(),
{
    let r = vec!["id", "display_name", "placeholder", "on_campus", "off_campus", "social_practice", "total"];
    assert(r@.map_values(|s: &'static str| s@) =~= columns_spec());
    r
}

/// A report table that only grows.
pub struct ReportTable {
    rows: Vec<ReportRow>,
}

impl View for ReportTable {
    type V = Seq<RowView>;

    closed spec fn view(&self) -> Seq<RowView> {
        self.rows@.map_values(|r: ReportRow| r@)
    }
}

impl ReportTable {
    /// An empty table.
    pub fn new() -> (r: ReportTable)
        ensures
            r@ == Seq::<RowView>::empty(),
    {
        let r = ReportTable { rows: Vec::new() };
        assert(r@ =~= Seq::<RowView>::empty());
        r
    }

    /// Appends the row of one person: nothing where `result` is `None`, else
    /// exactly one row with an empty reserved column.
    pub fn append(&mut self, id: String, name: String, result: Option<Time>)
        ensures
            final(self)@ == appended(old(self)@, id@, name@, result),
    {
        match result {
            None => {},
            Some(t) => {
                let ghost before = self.rows@;
                let row = ReportRow { id, name, class: String::new(), time: t };
                self.rows.push(row);
                assert(self.rows@ == before.push(row));
                assert(self@ =~= appended(old(self)@, id@, name@, result));
            },
        }
    }

    /// The number of rows.
    pub fn len(&self) -> (n: usize)
        ensures
            n == self@.len(),
    {
        self.rows.len()
    }

    /// The rows, in order.
    pub fn rows(&self) -> (r: &Vec<ReportRow>)
        ensures
            r@.map_values(|row: ReportRow| row@) == self@,
    {
        &self.rows
    }

    /// Hands the finished rows over.
    pub fn finalize(self) -> (r: Vec<ReportRow>)
        ensures
            r@.map_values(|row: ReportRow| row@) == self@,
    {
        self.rows
    }
}

} // verus!
