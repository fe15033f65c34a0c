//! The rows of the search index.

use vstd::prelude::*;
use crate::entry::{label_is_injective, models, DocsetEntry, EntryModel};

verus! {

/// The statement that creates the table of the search index.
pub const CREATE_TABLE_SQL: &'static str =
    "CREATE TABLE searchIndex(id INTEGER PRIMARY KEY, name TEXT, type TEXT, path TEXT)";

/// The statement that makes every triple of name, type and path unique.
pub const CREATE_UNIQUE_INDEX_SQL: &'static str =
    "CREATE UNIQUE INDEX anchor ON searchIndex (name, type, path)";

/// The statement that inserts one row; its three parameters are the name,
/// the type and the path, in this order.
pub const INSERT_ROW_SQL: &'static str =
    "INSERT INTO searchIndex (name, type, path) VALUES (?1, ?2, ?3)";

/// What a row is, as plain values.
pub struct RowModel {
    pub name: Seq<char>,
    pub ty: Seq<char>,
    pub path: Seq<char>,
}

/// One row of the search index: three texts.
#[derive(Clone, Debug, PartialEq, Eq)]
pub struct IndexRow {
    pub name: String,
    pub ty: String,
    pub path: String,
}

impl View for IndexRow {
    type V = RowModel;

    open spec fn view(&self) -> RowModel {
        RowModel { name: self.name@, ty: self.ty@, path: self.path@ }
    }
}

/// The row of an entry: its name, its kind as text, its path.
pub open spec fn row_of(entry: EntryModel) -> RowModel {
    RowModel { name: entry.name, ty: entry.ty.label(), path: entry.path }
}

/// The rows of a list of entries, one for each, in order.
pub open spec fn rows_of(entries: Seq<EntryModel>) -> Seq<RowModel> {
    Seq::new(entries.len(), |i: int| row_of(entries[i]))
}

/// The models of a list of rows, in order.
pub open spec fn row_models(rows: Seq<IndexRow>) -> Seq<RowModel> {
    Seq::new(rows.len(), |i: int| rows[i]@)
}

/// The row of one entry.
pub fn index_row(entry: &DocsetEntry) -> (row: IndexRow)
    ensures
        row@ == row_of(entry@),
{
    IndexRow { name: entry.name.clone(), ty: entry.ty.to_string(), path: entry.path.clone() }
}

/// The rows to insert for a list of entries: one row for each entry, in the
/// order of the entries.
pub fn index_rows(entries: &Vec<DocsetEntry>) -> (rows: Vec<IndexRow>)
    ensures
        row_models(rows@) == rows_of(models(entries@)),
{
    let mut rows: Vec<IndexRow> = Vec::new();
    let mut i: usize = 0;
    while i < entries.len()
        invariant
            i <= entries.len(),
            rows@.len() == i,
            forall|j: int| 0 <= j < i ==> rows@[j]@ == row_of(#[trigger] entries@[j]@),
        decreases entries.len() - i,
    {
        let row = index_row(&entries[i]);
        rows.push(row);
        i += 1;
    }
    assert(row_models(rows@) =~= rows_of(models(entries@)));
    rows
}

/// An entry that occurs twice in a list: `second` is the place of the first
/// entry that repeats an earlier one, `first` the earliest place of that
/// entry.
#[derive(Clone, Copy, Debug, PartialEq, Eq, Structural)]
pub struct RepeatedEntry {
    pub first: usize,
    pub second: usize,
}

/// The entry at `second` is the first that repeats an earlier one, and
/// `first` is the earliest place where it stands.
pub open spec fn repeats_at(entries: Seq<EntryModel>, first: int, second: int) -> bool {
    &&& 0 <= first < second < entries.len()
    &&& entries[first] == entries[second]
    &&& forall|k: int| 0 <= k < first ==> entries[k] != entries[second]
    &&& forall|a: int, b: int| 0 <= a < b < second ==> entries[a] != entries[b]
}

/// Whether two entries have the same name, kind and path.
pub fn same_entry(a: &DocsetEntry, b: &DocsetEntry) -> (same: bool)
    ensures
        same == (a@ == b@),
{
    a.name == b.name && a.ty == b.ty && a.path == b.path
}

/// Looks for an entry that occurs twice. The index takes every triple of
/// name, type and path once only, so such a list cannot be indexed.
pub fn first_repeated_entry(entries: &Vec<DocsetEntry>) -> (found: Option<RepeatedEntry>)
    ensures
        match found {
            Some(r) => repeats_at(models(entries@), r.first as int, r.second as int),
            None => models(entries@).no_duplicates(),
        },
{
    let ghost all = models(entries@);
    let mut j: usize = 0;
    while j < entries.len()
        invariant
            j <= entries.len(),
            all == models(entries@),
            forall|a: int, b: int| 0 <= a < b < j ==> all[a] != all[b],
        decreases entries.len() - j,
    {
        let mut i: usize = 0;
        while i < j
            invariant
                i <= j < entries.len(),
                all == models(entries@),
                forall|a: int, b: int| 0 <= a < b < j ==> all[a] != all[b],
                forall|k: int| 0 <= k < i ==> all[k] != all[j as int],
            decreases j - i,
        {
            if same_entry(&entries[i], &entries[j]) {
                return Some(RepeatedEntry { first: i, second: j });
            }
            i += 1;
        }
        j += 1;
    }
    assert forall|a: int, b: int| 0 <= a < all.len() && 0 <= b < all.len() && a != b implies all[a]
        != all[b] by {
        if a < b {
            assert(all[a] != all[b]);
        } else {
            assert(all[b] != all[a]);
        }
    }
    None
}

/// The rows of the index for a list of entries. Where no entry occurs twice
/// there is one row for each entry, in the order of the entries; else the
/// list is refused, and the first entry that repeats an earlier one is named.
pub fn unique_index_rows(entries: &Vec<DocsetEntry>) -> (rows: Result<Vec<IndexRow>, RepeatedEntry>)
    ensures
        match rows {
            Ok(rows) => models(entries@).no_duplicates() && row_models(rows@) == rows_of(
                models(entries@),
            ),
            Err(r) => repeats_at(models(entries@), r.first as int, r.second as int),
        },
{
    match first_repeated_entry(entries) {
        Some(repeated) => Err(repeated),
        None => Ok(index_rows(entries)),
    }
}

/// A list in which an entry repeats an earlier one has duplicates: the rows
/// of a list are handed out exactly where its entries are pairwise
/// different.
pub proof fn repeated_entry_is_a_duplicate(entries: Seq<EntryModel>, first: int, second: int)
    requires
        repeats_at(entries, first, second),
    ensures
        !entries.no_duplicates(),
{
}

/// Entries with the same row are the same entry.
pub proof fn row_determines_entry(a: EntryModel, b: EntryModel)
    requires
        row_of(a) == row_of(b),
    ensures
        a == b,
{
    label_is_injective(a.ty, b.ty);
}

/// Entries that are pairwise different give as many rows as there are
/// entries, and the rows are pairwise different: none of them breaks the
/// index's uniqueness.
pub proof fn distinct_entries_give_distinct_rows(entries: Seq<EntryModel>)
    requires
        entries.no_duplicates(),
    ensures
        rows_of(entries).len() == entries.len(),
        rows_of(entries).no_duplicates(),
{
    let rows = rows_of(entries);
    assert forall|i: int, j: int| 0 <= i < rows.len() && 0 <= j < rows.len() && i != j implies rows[i]
        != rows[j] by {
        if rows[i] == rows[j] {
            row_determines_entry(entries[i], entries[j]);
        }
    }
}

/// Where an entry occurs twice, so does its row: such a list breaks the
/// index's uniqueness.
pub proof fn repeated_entry_gives_repeated_row(entries: Seq<EntryModel>)
    requires
        !entries.no_duplicates(),
    ensures
        !rows_of(entries).no_duplicates(),
{
    let rows = rows_of(entries);
    let (i, j) = choose|i: int, j: int|
        0 <= i < entries.len() && 0 <= j < entries.len() && i != j && entries[i] == entries[j];
    assert(rows[i] == rows[j]);
}

} // verus!
