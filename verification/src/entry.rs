//! Indexed symbols and their kinds.

use vstd::prelude::*;

verus! {

/// The kind of symbol that an indexed page documents.
#[derive(Clone, Copy, Debug, PartialEq, Eq, Structural)]
pub enum EntryType {
    Package,
    Module,
    Constant,
    Enum,
    Function,
    Macro,
    Trait,
    Struct,
    Type,
}

impl EntryType {
    /// The text under which the kind is stored in the search index.
    pub open spec fn label(self) -> Seq<char> {
        match self {
            EntryType::Package => "Package"@,
            EntryType::Module => "Module"@,
            EntryType::Constant => "Constant"@,
            EntryType::Enum => "Enum"@,
            EntryType::Function => "Function"@,
            EntryType::Macro => "Macro"@,
            EntryType::Trait => "Trait"@,
            EntryType::Struct => "Struct"@,
            EntryType::Type => "Type"@,
        }
    }

    /// The kind as text.
    pub fn to_string(&self) -> (text: String)
        ensures
            text@ == self.label(),
    {
        match self {
            EntryType::Package => String::from_str("Package"),
            EntryType::Module => String::from_str("Module"),
            EntryType::Constant => String::from_str("Constant"),
            EntryType::Enum => String::from_str("Enum"),
            EntryType::Function => String::from_str("Function"),
            EntryType::Macro => String::from_str("Macro"),
            EntryType::Trait => String::from_str("Trait"),
            EntryType::Struct => String::from_str("Struct"),
            EntryType::Type => String::from_str("Type"),
        }
    }
}

/// Two kinds with the same text are the same kind.
pub proof fn label_is_injective(a: EntryType, b: EntryType)
    requires
        a.label() == b.label(),
    ensures
        a == b,
{
    reveal_strlit("Package");
    reveal_strlit("Module");
    reveal_strlit("Constant");
    reveal_strlit("Enum");
    reveal_strlit("Function");
    reveal_strlit("Macro");
    reveal_strlit("Trait");
    reveal_strlit("Struct");
    reveal_strlit("Type");
    if a != b {
        let x = a.label();
        let y = b.label();
        assert(x.len() != y.len() || x[0] != y[0] || x[1] != y[1]);
    }
}

/// What an entry is, as plain values.
pub struct EntryModel {
    pub name: Seq<char>,
    pub ty: EntryType,
    pub path: Seq<char>,
}

/// One indexed symbol: its qualified name, its kind, and the page that
/// documents it, as a path relative to the root of the page tree.
#[derive(Clone, Debug, PartialEq, Eq)]
pub struct DocsetEntry {
    pub name: String,
    pub ty: EntryType,
    pub path: String,
}

impl View for DocsetEntry {
    type V = EntryModel;

    open spec fn view(&self) -> EntryModel {
        EntryModel { name: self.name@, ty: self.ty, path: self.path@ }
    }
}

impl DocsetEntry {
    /// The entry of the given name, kind and path.
    pub fn new(name: String, ty: EntryType, path: String) -> (entry: DocsetEntry)
        ensures
            entry@ == (EntryModel { name: name@, ty: ty, path: path@ }),
    {
        DocsetEntry { name, ty, path }
    }
}

/// The models of a list of entries, in order.
pub open spec fn models(entries: Seq<DocsetEntry>) -> Seq<EntryModel> {
    Seq::new(entries.len(), |i: int| entries[i]@)
}

} // verus!
