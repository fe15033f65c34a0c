use cargo_docset::entry::{DocsetEntry, EntryType};
use cargo_docset::index::{
    first_repeated_entry, index_row, index_rows, same_entry, unique_index_rows, IndexRow,
    RepeatedEntry, CREATE_TABLE_SQL, CREATE_UNIQUE_INDEX_SQL, INSERT_ROW_SQL,
};

fn made(name: &str, ty: EntryType, path: &str) -> DocsetEntry {
    DocsetEntry::new(name.to_string(), ty, path.to_string())
}

fn row(name: &str, ty: &str, path: &str) -> IndexRow {
    IndexRow { name: name.to_string(), ty: ty.to_string(), path: path.to_string() }
}

#[test]
fn one_row_for_each_entry_in_order() {
    let entries = vec![
        DocsetEntry::new("pkg".to_string(), EntryType::Package, "pkg/index.html".to_string()),
        DocsetEntry::new("pkg::f".to_string(), EntryType::Function, "pkg/fn.f.html".to_string()),
        DocsetEntry::new("pkg::m::index".to_string(), EntryType::Module, "pkg/m/index.html".to_string()),
    ];
    assert_eq!(
        index_rows(&entries),
        vec![
            row("pkg", "Package", "pkg/index.html"),
            row("pkg::f", "Function", "pkg/fn.f.html"),
            row("pkg::m::index", "Module", "pkg/m/index.html"),
        ]
    );
}

#[test]
fn no_entries_no_rows() {
    assert_eq!(index_rows(&Vec::new()), Vec::new());
}

#[test]
fn repeated_entries_keep_their_rows() {
    let e = DocsetEntry::new("pkg::S".to_string(), EntryType::Struct, "pkg/struct.S.html".to_string());
    let rows = index_rows(&vec![e.clone(), e.clone()]);
    assert_eq!(rows.len(), 2);
    assert_eq!(rows[0], rows[1]);
    assert_eq!(rows[0], index_row(&e));
}

#[test]
fn entries_that_differ_in_kind_alone_have_different_rows() {
    let a = DocsetEntry::new("pkg::x".to_string(), EntryType::Type, "p".to_string());
    let b = DocsetEntry::new("pkg::x".to_string(), EntryType::Trait, "p".to_string());
    assert_ne!(index_row(&a), index_row(&b));
}

#[test]
fn statements_of_the_index() {
    assert_eq!(
        CREATE_TABLE_SQL,
        "CREATE TABLE searchIndex(id INTEGER PRIMARY KEY, name TEXT, type TEXT, path TEXT)"
    );
    assert_eq!(CREATE_UNIQUE_INDEX_SQL, "CREATE UNIQUE INDEX anchor ON searchIndex (name, type, path)");
    assert_eq!(INSERT_ROW_SQL, "INSERT INTO searchIndex (name, type, path) VALUES (?1, ?2, ?3)");
}

#[test]
fn entries_without_repeats_are_indexed_one_for_one() {
    let entries = vec![
        made("pkg", EntryType::Package, "pkg/index.html"),
        made("pkg::S", EntryType::Struct, "pkg/struct.S.html"),
        made("pkg::S", EntryType::Trait, "pkg/struct.S.html"),
        made("pkg::S", EntryType::Struct, "pkg/m/struct.S.html"),
        made("pkg::T", EntryType::Struct, "pkg/struct.S.html"),
    ];
    assert_eq!(first_repeated_entry(&entries), None);
    let rows = unique_index_rows(&entries).unwrap();
    assert_eq!(rows.len(), entries.len());
    assert_eq!(rows, index_rows(&entries));
    assert_eq!(rows[2], row("pkg::S", "Trait", "pkg/struct.S.html"));
}

#[test]
fn no_entries_are_indexed_as_no_rows() {
    assert_eq!(unique_index_rows(&vec![]), Ok(vec![]));
}

#[test]
fn a_repeated_entry_is_refused() {
    let a = made("pkg::a", EntryType::Function, "pkg/fn.a.html");
    let b = made("pkg::b", EntryType::Function, "pkg/fn.b.html");
    let c = made("pkg::c", EntryType::Function, "pkg/fn.c.html");
    let entries = vec![a.clone(), b.clone(), c, b, a];
    assert_eq!(first_repeated_entry(&entries), Some(RepeatedEntry { first: 1, second: 3 }));
    assert_eq!(unique_index_rows(&entries), Err(RepeatedEntry { first: 1, second: 3 }));
}

#[test]
fn the_earliest_repeat_is_named() {
    let a = made("pkg::a", EntryType::Function, "pkg/fn.a.html");
    let entries = vec![a.clone(), a.clone(), a];
    assert_eq!(unique_index_rows(&entries), Err(RepeatedEntry { first: 0, second: 1 }));
}

#[test]
fn entries_are_the_same_by_name_kind_and_path() {
    let a = made("pkg::a", EntryType::Function, "pkg/fn.a.html");
    assert!(same_entry(&a, &a.clone()));
    assert!(!same_entry(&a, &made("pkg::b", EntryType::Function, "pkg/fn.a.html")));
    assert!(!same_entry(&a, &made("pkg::a", EntryType::Macro, "pkg/fn.a.html")));
    assert!(!same_entry(&a, &made("pkg::a", EntryType::Function, "pkg/fn.b.html")));
}
