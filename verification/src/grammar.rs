//! The file name grammar: which pages document a symbol, and which one.

use vstd::prelude::*;
use crate::entry::{DocsetEntry, EntryModel, EntryType};

verus! {

/// The index of the first `.` in `s`, or the length of `s` where it has none.
pub open spec fn first_dot(s: Seq<char>) -> int
    decreases s.len(),
{
    if s.len() == 0 || s[0] == '.' {
        0
    } else {
        1 + first_dot(s.subrange(1, s.len() as int))
    }
}

/// The segments of `s` between its dots, from left to right.
pub open spec fn split_dots(s: Seq<char>) -> Seq<Seq<char>>
    decreases s.len(),
{
    let i = first_dot(s);
    if 0 <= i < s.len() {
        seq![s.subrange(0, i)] + split_dots(s.subrange(i + 1, s.len() as int))
    } else {
        seq![s]
    }
}

/// The first dot lies inside the text or at its end, no dot stands before
/// it, and where it lies inside, a dot stands there.
pub proof fn lemma_first_dot(s: Seq<char>)
    ensures
        0 <= first_dot(s) <= s.len(),
        forall|j: int| 0 <= j < first_dot(s) ==> s[j] != '.',
        first_dot(s) < s.len() ==> s[first_dot(s)] == '.',
    decreases s.len(),
{
    if s.len() == 0 || s[0] == '.' {
    } else {
        let t = s.subrange(1, s.len() as int);
        lemma_first_dot(t);
        assert forall|j: int| 0 <= j < first_dot(s) implies s[j] != '.' by {
            if j > 0 {
                assert(s[j] == t[j - 1]);
            }
        }
        if first_dot(s) < s.len() {
            assert(t[first_dot(t)] == s[first_dot(t) + 1]);
        }
    }
}

/// The first dot is where a dot stands with none before it.
pub proof fn lemma_first_dot_at(s: Seq<char>, i: int)
    requires
        0 <= i <= s.len(),
        forall|j: int| 0 <= j < i ==> s[j] != '.',
        i < s.len() ==> s[i] == '.',
    ensures
        first_dot(s) == i,
{
    lemma_first_dot(s);
    let k = first_dot(s);
    if k < i {
        assert(s[k] == '.');
    } else if k > i {
        assert(s[i] != '.');
    }
}

/// Every text has at least one segment.
pub proof fn lemma_split_nonempty(s: Seq<char>)
    ensures
        split_dots(s).len() >= 1,
{
}

/// The separator between the segments of a qualified name.
pub open spec fn separator() -> Seq<char> {
    seq![':', ':']
}

/// Whether a namespace path holds the separator `::`, and so more than one
/// segment. A single `:` is part of a segment's name.
pub open spec fn holds_separator(path: Seq<char>) -> bool {
    exists|i: int| 0 <= i && i + 1 < path.len() && #[trigger] path[i] == ':' && path[i + 1] == ':'
}

/// `ident` inside the namespace `ns`.
pub open spec fn qualified(ns: Seq<char>, ident: Seq<char>) -> Seq<char> {
    ns + separator() + ident
}

/// The kind that the first segment of a symbol page's name stands for.
pub open spec fn kind_of_token(token: Seq<char>) -> Option<EntryType> {
    if token == "const"@ {
        Some(EntryType::Constant)
    } else if token == "enum"@ {
        Some(EntryType::Enum)
    } else if token == "fn"@ {
        Some(EntryType::Function)
    } else if token == "macro"@ {
        Some(EntryType::Macro)
    } else if token == "trait"@ {
        Some(EntryType::Trait)
    } else if token == "struct"@ {
        Some(EntryType::Struct)
    } else if token == "type"@ {
        Some(EntryType::Type)
    } else {
        None
    }
}

/// A page of three segments whose first names a kind: the page of a symbol,
/// which only ever stands inside a namespace.
pub open spec fn is_symbol_page(file_name: Seq<char>) -> bool {
    let parts = split_dots(file_name);
    parts.len() == 3 && parts[2] == "html"@ && kind_of_token(parts[0]) is Some
}

/// The entry that a page stands for, if any: `namespace` is the path of the
/// directory that holds it, `file_name` its own name, `path` where it lies.
pub open spec fn parse_entry(
    namespace: Option<Seq<char>>,
    file_name: Seq<char>,
    path: Seq<char>,
) -> Option<EntryModel> {
    let parts = split_dots(file_name);
    if parts.len() == 2 && parts[0] == "index"@ && parts[1] == "html"@ {
        match namespace {
            Some(ns) => if holds_separator(ns) {
                Some(EntryModel { name: qualified(ns, "index"@), ty: EntryType::Module, path })
            } else {
                Some(EntryModel { name: ns, ty: EntryType::Package, path })
            },
            None => None,
        }
    } else if is_symbol_page(file_name) {
        match namespace {
            Some(ns) => Some(
                EntryModel {
                    name: qualified(ns, parts[1]),
                    ty: kind_of_token(parts[0])->Some_0,
                    path,
                },
            ),
            None => None,
        }
    } else {
        None
    }
}

/// A segment without a dot, followed by a dot, is the first segment of what
/// it stands before.
pub proof fn lemma_split_prepend(head: Seq<char>, rest: Seq<char>)
    requires
        !head.contains('.'),
    ensures
        split_dots(head + seq!['.'] + rest) == seq![head] + split_dots(rest),
{
    let s = head + seq!['.'] + rest;
    assert forall|j: int| 0 <= j < head.len() implies s[j] != '.' by {
        assert(s[j] == head[j]);
        assert(head.contains(head[j]));
    }
    lemma_first_dot_at(s, head.len() as int);
    assert(s.subrange(0, head.len() as int) =~= head);
    assert(s.subrange(head.len() as int + 1, s.len() as int) =~= rest);
}

/// A name without a dot is its own single segment.
pub proof fn lemma_split_single(s: Seq<char>)
    requires
        !s.contains('.'),
    ensures
        split_dots(s) == seq![s],
{
    assert forall|j: int| 0 <= j < s.len() implies s[j] != '.' by {
        assert(s.contains(s[j]));
    }
    lemma_first_dot_at(s, s.len() as int);
}

proof fn lemma_html_has_no_dot()
    ensures
        !"html"@.contains('.'),
        !"index"@.contains('.'),
        "index.html"@ == "index"@ + seq!['.'] + "html"@,
        ".html"@ == seq!['.'] + "html"@,
{
    reveal_strlit("html");
    reveal_strlit("index");
    reveal_strlit("index.html");
    reveal_strlit(".html");
    assert("index.html"@ =~= "index"@ + seq!['.'] + "html"@);
    assert(".html"@ =~= seq!['.'] + "html"@);
    let h = "html"@;
    assert forall|j: int| 0 <= j < h.len() implies h[j] != '.' by {}
    let x = "index"@;
    assert forall|j: int| 0 <= j < x.len() implies x[j] != '.' by {}
}

proof fn lemma_index_page()
    ensures
        split_dots("index.html"@) == seq!["index"@, "html"@],
{
    lemma_html_has_no_dot();
    lemma_split_prepend("index"@, "html"@);
    lemma_split_single("html"@);
}

/// A token that names a kind holds no dot.
pub proof fn lemma_kind_tokens_have_no_dot(token: Seq<char>)
    requires
        kind_of_token(token) is Some,
    ensures
        !token.contains('.'),
{
    reveal_strlit("const");
    reveal_strlit("enum");
    reveal_strlit("fn");
    reveal_strlit("macro");
    reveal_strlit("trait");
    reveal_strlit("struct");
    reveal_strlit("type");
    assert forall|j: int| 0 <= j < token.len() implies token[j] != '.' by {}
}

/// The name of a symbol's page: the kind's token, the identifier and the
/// extension, with a dot between them.
pub open spec fn symbol_page_name(token: Seq<char>, ident: Seq<char>) -> Seq<char> {
    token + seq!['.'] + ident + ".html"@
}

proof fn lemma_symbol_page_segments(token: Seq<char>, ident: Seq<char>)
    requires
        !token.contains('.'),
        !ident.contains('.'),
    ensures
        split_dots(symbol_page_name(token, ident)) == seq![token, ident, "html"@],
{
    lemma_html_has_no_dot();
    let tail = ident + seq!['.'] + "html"@;
    assert(symbol_page_name(token, ident) =~= token + seq!['.'] + tail);
    lemma_split_prepend(token, tail);
    lemma_split_prepend(ident, "html"@);
    lemma_split_single("html"@);
    assert(seq![token] + (seq![ident] + seq!["html"@]) =~= seq![token, ident, "html"@]);
}

/// Inside a namespace that holds the separator `::`, the page `index.html` is the
/// page of a module, named by the namespace followed by `::index`.
pub proof fn index_page_in_nested_namespace_is_module(namespace: Seq<char>, path: Seq<char>)
    requires
        holds_separator(namespace),
    ensures
        parse_entry(Some(namespace), "index.html"@, path) == Some(
            EntryModel { name: namespace + "::index"@, ty: EntryType::Module, path },
        ),
{
    lemma_index_page();
    reveal_strlit("::index");
    reveal_strlit("index");
    assert(namespace + "::index"@ =~= qualified(namespace, "index"@));
}

/// Inside a namespace of a single segment, one that holds no `::`, the page
/// `index.html` is the page of a package, named exactly by that segment.
pub proof fn index_page_in_top_level_namespace_is_package(namespace: Seq<char>, path: Seq<char>)
    requires
        !holds_separator(namespace),
    ensures
        parse_entry(Some(namespace), "index.html"@, path) == Some(
            EntryModel { name: namespace, ty: EntryType::Package, path },
        ),
{
    lemma_index_page();
}

/// Outside every namespace the page `index.html` is no entry.
pub proof fn index_page_without_namespace_is_no_entry(path: Seq<char>)
    ensures
        parse_entry(None, "index.html"@, path) is None,
{
    lemma_index_page();
}

/// Inside the namespace `P`, the page `<kind>.<ident>.html` is the page of
/// the symbol `P::<ident>` of the kind that the token names; where the token
/// names no kind the page is no entry.
pub proof fn symbol_page_is_entry_of_its_kind(
    namespace: Seq<char>,
    token: Seq<char>,
    ident: Seq<char>,
    path: Seq<char>,
)
    requires
        !token.contains('.'),
        !ident.contains('.'),
    ensures
        parse_entry(Some(namespace), symbol_page_name(token, ident), path) == match kind_of_token(
            token,
        ) {
            Some(kind) => Some(
                EntryModel { name: namespace + "::"@ + ident, ty: kind, path },
            ),
            None => None,
        },
{
    lemma_symbol_page_segments(token, ident);
    lemma_html_has_no_dot();
    reveal_strlit("::");
    assert("::"@ =~= separator());
    reveal_strlit("index");
    reveal_strlit("html");
}

/// Only a name that ends in the segment `html` is an entry.
pub proof fn other_extensions_are_no_entry(
    namespace: Option<Seq<char>>,
    file_name: Seq<char>,
    path: Seq<char>,
)
    requires
        split_dots(file_name).last() != "html"@,
    ensures
        parse_entry(namespace, file_name, path) is None,
{
}

/// The model of an entry that may be absent.
pub open spec fn model_of(entry: Option<DocsetEntry>) -> Option<EntryModel> {
    match entry {
        Some(e) => Some(e@),
        None => None,
    }
}

fn find_dot(s: &str, from: usize, len: usize) -> (i: usize)
    requires
        len == s@.len(),
        from <= len,
    ensures
        from <= i <= len,
        i - from == first_dot(s@.subrange(from as int, len as int)),
{
    let mut i: usize = from;
    while i < len && s.get_char(i) != '.'
        invariant
            from <= i <= len,
            len == s@.len(),
            forall|j: int| from <= j < i ==> s@[j] != '.',
        decreases len - i,
    {
        i += 1;
    }
    proof {
        lemma_first_dot_at(s@.subrange(from as int, len as int), i - from);
    }
    i
}

/// Whether two strings hold the same characters.
pub fn str_eq(a: &str, b: &str) -> (same: bool)
    ensures
        same == (a@ == b@),
{
    let n = a.unicode_len();
    if n != b.unicode_len() {
        return false;
    }
    let mut i: usize = 0;
    while i < n
        invariant
            i <= n,
            n == a@.len(),
            n == b@.len(),
            forall|j: int| 0 <= j < i ==> a@[j] == b@[j],
        decreases n - i,
    {
        if a.get_char(i) != b.get_char(i) {
            return false;
        }
        i += 1;
    }
    assert(a@ =~= b@);
    true
}

/// Whether a namespace path holds the separator `::`.
pub fn has_separator(path: &str) -> (found: bool)
    ensures
        found == holds_separator(path@),
{
    let n = path.unicode_len();
    if n < 2 {
        return false;
    }
    let mut i: usize = 0;
    while i < n - 1
        invariant
            i <= n - 1,
            2 <= n,
            n == path@.len(),
            forall|j: int| 0 <= j < i ==> !(#[trigger] path@[j] == ':' && path@[j + 1] == ':'),
        decreases n - i,
    {
        if path.get_char(i) == ':' && path.get_char(i + 1) == ':' {
            return true;
        }
        i += 1;
    }
    false
}

/// The kind that a first segment stands for, if it names one.
pub fn entry_kind(token: &str) -> (kind: Option<EntryType>)
    ensures
        kind == kind_of_token(token@),
{
    if str_eq(token, "const") {
        Some(EntryType::Constant)
    } else if str_eq(token, "enum") {
        Some(EntryType::Enum)
    } else if str_eq(token, "fn") {
        Some(EntryType::Function)
    } else if str_eq(token, "macro") {
        Some(EntryType::Macro)
    } else if str_eq(token, "trait") {
        Some(EntryType::Trait)
    } else if str_eq(token, "struct") {
        Some(EntryType::Struct)
    } else if str_eq(token, "type") {
        Some(EntryType::Type)
    } else {
        None
    }
}

/// Joins a namespace path and an identifier into a qualified name.
pub fn qualified_name(namespace: &str, ident: &str) -> (name: String)
    ensures
        name@ == qualified(namespace@, ident@),
{
    let mut name = String::from_str(namespace);
    proof {
        reveal_strlit("::");
        assert("::"@ =~= separator());
    }
    name.append("::");
    name.append(ident);
    name
}

/// Reads one page's name. A page `index.html` inside a namespace is the page
/// of a module, or of a package where the namespace is a single segment; a
/// page `<kind>.<ident>.html` is the page of the symbol `ident` of that kind.
/// Every other file is no entry.
pub fn parse_docset_entry(enclosing: Option<&str>, file_name: &str, relative_path: &str) -> (entry:
    Option<DocsetEntry>)
    requires
        enclosing is None ==> !is_symbol_page(file_name@),
    ensures
        model_of(entry) == parse_entry(
            match enclosing {
                Some(p) => Some(p@),
                None => None,
            },
            file_name@,
            relative_path@,
        ),
{
    let len = file_name.unicode_len();
    let ghost s = file_name@;
    let d1 = find_dot(file_name, 0, len);
    assert(s.subrange(0, len as int) =~= s);
    if d1 >= len {
        return None;
    }
    let ghost t1 = s.subrange(d1 + 1, len as int);
    let d2 = find_dot(file_name, d1 + 1, len);
    let first = file_name.substring_char(0, d1);
    if d2 >= len {
        assert(split_dots(t1) =~= seq![t1]);
        assert(split_dots(s) =~= seq![first@, t1]);
        let second = file_name.substring_char(d1 + 1, len);
        if str_eq(first, "index") && str_eq(second, "html") {
            match enclosing {
                Some(ns) => {
                    if has_separator(ns) {
                        let name = qualified_name(ns, first);
                        Some(
                            DocsetEntry::new(
                                name,
                                EntryType::Module,
                                String::from_str(relative_path),
                            ),
                        )
                    } else {
                        Some(
                            DocsetEntry::new(
                                String::from_str(ns),
                                EntryType::Package,
                                String::from_str(relative_path),
                            ),
                        )
                    }
                },
                None => None,
            }
        } else {
            None
        }
    } else {
        let ghost t2 = s.subrange(d2 + 1, len as int);
        assert(t1.subrange(d2 - d1, t1.len() as int) =~= t2);
        assert(t1.subrange(0, d2 - d1 - 1) =~= s.subrange(d1 + 1, d2 as int));
        let d3 = find_dot(file_name, d2 + 1, len);
        if d3 < len {
            proof {
                let t3 = t2.subrange(d3 - d2, t2.len() as int);
                lemma_split_nonempty(t3);
                assert(split_dots(t2).len() >= 2);
                assert(split_dots(t1).len() >= 3);
                assert(split_dots(s).len() >= 4);
            }
            None
        } else {
            assert(split_dots(t2) =~= seq![t2]);
            assert(split_dots(t1) =~= seq![s.subrange(d1 + 1, d2 as int), t2]);
            assert(split_dots(s) =~= seq![first@, s.subrange(d1 + 1, d2 as int), t2]);
            let ident = file_name.substring_char(d1 + 1, d2);
            let extension = file_name.substring_char(d2 + 1, len);
            if !str_eq(extension, "html") {
                return None;
            }
            match entry_kind(first) {
                Some(kind) => match enclosing {
                    Some(ns) => Some(
                        DocsetEntry::new(
                            qualified_name(ns, ident),
                            kind,
                            String::from_str(relative_path),
                        ),
                    ),
                    None => None,
                },
                None => None,
            }
        }
    }
}

/// Whether a file name is that of a symbol's page, which has to stand inside
/// a namespace.
pub fn names_symbol_page(file_name: &str) -> (found: bool)
    ensures
        found == is_symbol_page(file_name@),
{
    match parse_docset_entry(Some(""), file_name, "") {
        Some(entry) => match entry.ty {
            EntryType::Package | EntryType::Module => false,
            _ => true,
        },
        None => false,
    }
}

} // verus!
