//! The walk over a tree of pages: every directory is a namespace, every file
//! is read by the file name grammar.

use vstd::prelude::*;
use crate::entry::{models, DocsetEntry, EntryModel};
use crate::grammar::{
    is_symbol_page, names_symbol_page, parse_docset_entry, parse_entry, separator, str_eq,
};

verus! {

/// A directory of the page tree: its own name, the names of the files in it
/// and the directories below it, each in the order in which it was listed.
#[derive(Debug)]
pub struct DirTree {
    pub name: String,
    pub files: Vec<String>,
    pub dirs: Vec<DirTree>,
}

/// The names of the directories that hold no page of a symbol where they
/// stand directly under the root.
pub open spec fn is_reserved_name(name: Seq<char>) -> bool {
    name == "src"@ || name == "implementors"@
}

/// Whether the walk passes over a directory: only a reserved name directly
/// under the root is passed over.
pub open spec fn is_skipped(namespace: Option<Seq<char>>, name: Seq<char>) -> bool {
    namespace is None && is_reserved_name(name)
}

/// The namespace of a directory named `name` inside `namespace`.
pub open spec fn child_namespace(namespace: Option<Seq<char>>, name: Seq<char>) -> Seq<char> {
    match namespace {
        Some(ns) => ns + separator() + name,
        None => name,
    }
}

/// The relative path of what is named `name` in the directory whose own
/// relative path, with its closing `/`, is `prefix`.
pub open spec fn child_prefix(prefix: Seq<char>, name: Seq<char>) -> Seq<char> {
    prefix + name + seq!['/']
}

/// The entries of the first `n` files of a directory.
pub open spec fn file_entries(
    files: Seq<String>,
    namespace: Option<Seq<char>>,
    prefix: Seq<char>,
    n: nat,
) -> Seq<EntryModel>
    decreases n,
{
    if n == 0 || n > files.len() {
        Seq::empty()
    } else {
        let before = file_entries(files, namespace, prefix, (n - 1) as nat);
        let file = files[n - 1]@;
        match parse_entry(namespace, file, prefix + file) {
            Some(entry) => before.push(entry),
            None => before,
        }
    }
}

/// The entries of a whole directory: those of its own files, then those of
/// the directories below it.
pub open spec fn tree_entries(
    dir: DirTree,
    namespace: Option<Seq<char>>,
    prefix: Seq<char>,
) -> Seq<EntryModel>
    decreases dir, dir.dirs.len() + 1,
{
    file_entries(dir.files@, namespace, prefix, dir.files.len() as nat) + subdir_entries(
        dir,
        namespace,
        prefix,
        dir.dirs.len() as nat,
    )
}

/// The entries of one directory below `namespace`: none where the walk
/// passes over it.
pub open spec fn child_entries(
    child: DirTree,
    namespace: Option<Seq<char>>,
    prefix: Seq<char>,
) -> Seq<EntryModel>
    decreases child, child.dirs.len() + 2,
{
    if is_skipped(namespace, child.name@) {
        Seq::empty()
    } else {
        tree_entries(
            child,
            Some(child_namespace(namespace, child.name@)),
            child_prefix(prefix, child.name@),
        )
    }
}

/// The entries of the first `n` directories below `dir`.
pub open spec fn subdir_entries(
    dir: DirTree,
    namespace: Option<Seq<char>>,
    prefix: Seq<char>,
    n: nat,
) -> Seq<EntryModel>
    decreases dir, n,
{
    if n == 0 || n > dir.dirs.len() {
        Seq::empty()
    } else {
        subdir_entries(dir, namespace, prefix, (n - 1) as nat) + child_entries(
            dir.dirs[n - 1],
            namespace,
            prefix,
        )
    }
}

/// No file of the directory is the page of a symbol.
pub open spec fn has_no_symbol_page(files: Seq<String>) -> bool {
    forall|i: int| 0 <= i < files.len() ==> !is_symbol_page(#[trigger] files[i]@)
}

/// Whether the walk passes over the directory `name`; `at_root` says that it
/// stands directly under the root.
pub fn skips_directory(at_root: bool, name: &str) -> (skip: bool)
    ensures
        skip == (at_root && is_reserved_name(name@)),
{
    at_root && (str_eq(name, "src") || str_eq(name, "implementors"))
}

fn join(left: &str, right: &str) -> (joined: String)
    ensures
        joined@ == left@ + right@,
{
    let mut joined = String::from_str(left);
    joined.append(right);
    joined
}

fn walk_files(files: &Vec<String>, namespace: Option<&str>, prefix: &str) -> (entries: Vec<
    DocsetEntry,
>)
    requires
        namespace is None ==> has_no_symbol_page(files@),
    ensures
        models(entries@) == file_entries(
            files@,
            match namespace {
                Some(ns) => Some(ns@),
                None => None,
            },
            prefix@,
            files.len() as nat,
        ),
{
    let ghost ns = match namespace {
        Some(ns) => Some(ns@),
        None => None,
    };
    let mut entries: Vec<DocsetEntry> = Vec::new();
    let mut i: usize = 0;
    assert(models(entries@) =~= file_entries(files@, ns, prefix@, 0));
    while i < files.len()
        invariant
            i <= files.len(),
            namespace is None ==> has_no_symbol_page(files@),
            ns == match namespace {
                Some(ns) => Some(ns@),
                None => None,
            },
            models(entries@) == file_entries(files@, ns, prefix@, i as nat),
        decreases files.len() - i,
    {
        let file = files[i].as_str();
        let path = join(prefix, file);
        let ghost before = entries@;
        match parse_docset_entry(namespace, file, path.as_str()) {
            Some(entry) => {
                entries.push(entry);
                assert(models(entries@) =~= models(before).push(entry@));
            },
            None => {},
        }
        i += 1;
    }
    entries
}

fn walk_dir(dir: &DirTree, namespace: Option<&str>, prefix: &str) -> (entries: Vec<DocsetEntry>)
    requires
        namespace is None ==> has_no_symbol_page(dir.files@),
    ensures
        models(entries@) == tree_entries(
            *dir,
            match namespace {
                Some(ns) => Some(ns@),
                None => None,
            },
            prefix@,
        ),
    decreases dir,
{
    let ghost ns = match namespace {
        Some(ns) => Some(ns@),
        None => None,
    };
    let mut entries = walk_files(&dir.files, namespace, prefix);
    let ghost own = models(entries@);
    let mut i: usize = 0;
    assert(models(entries@) =~= own + subdir_entries(*dir, ns, prefix@, 0));
    while i < dir.dirs.len()
        invariant
            i <= dir.dirs.len(),
            ns == match namespace {
                Some(ns) => Some(ns@),
                None => None,
            },
            models(entries@) == own + subdir_entries(*dir, ns, prefix@, i as nat),
        decreases dir.dirs.len() - i,
    {
        let child = &dir.dirs[i];
        let ghost before = entries@;
        if !skips_directory(namespace.is_none(), child.name.as_str()) {
            let child_ns = match namespace {
                Some(ns) => {
                    let mut path = join(ns, "::");
                    path.append(child.name.as_str());
                    path
                },
                None => String::from_str(child.name.as_str()),
            };
            let mut child_dir = join(prefix, child.name.as_str());
            child_dir.append("/");
            proof {
                reveal_strlit("::");
                reveal_strlit("/");
                assert("::"@ =~= separator());
                assert("/"@ =~= seq!['/']);
            }
            let mut below = walk_dir(child, Some(child_ns.as_str()), child_dir.as_str());
            let ghost added = below@;
            entries.append(&mut below);
            assert(models(entries@) =~= models(before) + models(added));
            assert(child_ns@ == child_namespace(ns, child.name@));
            assert(child_dir@ == child_prefix(prefix@, child.name@));
            assert(models(added) == child_entries(*child, ns, prefix@));
        } else {
            assert(child_entries(*child, ns, prefix@) =~= Seq::<EntryModel>::empty());
        }
        assert(subdir_entries(*dir, ns, prefix@, (i + 1) as nat) == subdir_entries(
            *dir,
            ns,
            prefix@,
            i as nat,
        ) + child_entries(dir.dirs[i as int], ns, prefix@));
        assert(models(entries@) =~= own + subdir_entries(*dir, ns, prefix@, (i + 1) as nat));
        i += 1;
    }
    entries
}

/// Whether one of the root's own files is the page of a symbol. Such a tree
/// cannot be walked: the page would lie in no namespace.
pub fn has_symbol_page_at_root(root: &DirTree) -> (found: bool)
    ensures
        found == !has_no_symbol_page(root.files@),
{
    let mut i: usize = 0;
    while i < root.files.len()
        invariant
            i <= root.files.len(),
            forall|j: int| 0 <= j < i ==> !is_symbol_page(#[trigger] root.files@[j]@),
        decreases root.files.len() - i,
    {
        if names_symbol_page(root.files[i].as_str()) {
            return true;
        }
        i += 1;
    }
    false
}

/// Walks the whole tree from its root, which lies in no namespace, and
/// returns the entries of every page in it: those of a directory's own files
/// first, then those of the directories below it.
pub fn recursive_walk(root: &DirTree) -> (entries: Vec<DocsetEntry>)
    requires
        has_no_symbol_page(root.files@),
    ensures
        models(entries@) == tree_entries(*root, None, Seq::empty()),
{
    proof {
        reveal_strlit("");
        assert(""@ =~= Seq::<char>::empty());
    }
    walk_dir(root, None, "")
}

/// What lies in a reserved directory directly under the root adds no entry,
/// whatever its files are named.
pub proof fn reserved_root_directory_adds_no_entry(child: DirTree, prefix: Seq<char>)
    requires
        is_reserved_name(child.name@),
    ensures
        child_entries(child, None, prefix) == Seq::<EntryModel>::empty(),
{
}

/// Two roots are alike but for what their reserved directories hold: they
/// list the same files, and each directory of the one is the same as that of
/// the other, or both bear a reserved name.
pub open spec fn alike_outside_reserved(a: DirTree, b: DirTree) -> bool {
    &&& a.files@ == b.files@
    &&& a.dirs.len() == b.dirs.len()
    &&& forall|i: int|
        0 <= i < a.dirs.len() ==> #[trigger] a.dirs[i] == b.dirs[i] || (is_reserved_name(
            a.dirs[i].name@,
        ) && is_reserved_name(b.dirs[i].name@))
}

proof fn lemma_subdirs_ignore_reserved(a: DirTree, b: DirTree, n: nat)
    requires
        alike_outside_reserved(a, b),
    ensures
        subdir_entries(a, None, Seq::empty(), n) == subdir_entries(b, None, Seq::empty(), n),
    decreases n,
{
    if n == 0 || n > a.dirs.len() {
    } else {
        lemma_subdirs_ignore_reserved(a, b, (n - 1) as nat);
        let x = a.dirs[n - 1];
        let y = b.dirs[n - 1];
        if x != y {
            reserved_root_directory_adds_no_entry(x, Seq::empty());
            reserved_root_directory_adds_no_entry(y, Seq::empty());
        }
        assert(child_entries(x, None, Seq::empty()) == child_entries(y, None, Seq::empty()));
    }
}

/// The walk of a whole tree does not depend on what lies in the reserved
/// directories directly under its root: their files are never read,
/// whatever they are named.
pub proof fn walk_ignores_reserved_root_directories(a: DirTree, b: DirTree)
    requires
        alike_outside_reserved(a, b),
    ensures
        tree_entries(a, None, Seq::empty()) == tree_entries(b, None, Seq::empty()),
{
    lemma_subdirs_ignore_reserved(a, b, a.dirs.len() as nat);
}

/// Every path of the entries begins with `prefix`.
pub open spec fn all_below(entries: Seq<EntryModel>, prefix: Seq<char>) -> bool {
    forall|i: int| 0 <= i < entries.len() ==> prefix.is_prefix_of(#[trigger] entries[i].path)
}

proof fn lemma_prefix_chain(a: Seq<char>, b: Seq<char>, c: Seq<char>)
    requires
        a.is_prefix_of(b),
        b.is_prefix_of(c),
    ensures
        a.is_prefix_of(c),
{
    assert(a =~= c.subrange(0, a.len() as int)) by {
        assert forall|j: int| 0 <= j < a.len() implies a[j] == c[j] by {
            assert(a[j] == b.subrange(0, a.len() as int)[j]);
            assert(b[j] == c.subrange(0, b.len() as int)[j]);
        }
    }
}

proof fn lemma_files_below(
    files: Seq<String>,
    namespace: Option<Seq<char>>,
    prefix: Seq<char>,
    n: nat,
)
    ensures
        all_below(file_entries(files, namespace, prefix, n), prefix),
        namespace is None ==> file_entries(files, namespace, prefix, n).len() == 0,
    decreases n,
{
    if n == 0 || n > files.len() {
    } else {
        lemma_files_below(files, namespace, prefix, (n - 1) as nat);
        let file = files[n - 1]@;
        assert((prefix + file).subrange(0, prefix.len() as int) =~= prefix);
    }
}

proof fn lemma_tree_below(dir: DirTree, namespace: Option<Seq<char>>, prefix: Seq<char>)
    ensures
        all_below(tree_entries(dir, namespace, prefix), prefix),
    decreases dir, dir.dirs.len() + 1,
{
    lemma_files_below(dir.files@, namespace, prefix, dir.files.len() as nat);
    lemma_subdirs_below(dir, namespace, prefix, dir.dirs.len() as nat);
}

proof fn lemma_child_below(child: DirTree, namespace: Option<Seq<char>>, prefix: Seq<char>)
    ensures
        all_below(child_entries(child, namespace, prefix), child_prefix(prefix, child.name@)),
        all_below(child_entries(child, namespace, prefix), prefix),
    decreases child, child.dirs.len() + 2,
{
    if !is_skipped(namespace, child.name@) {
        let below = child_prefix(prefix, child.name@);
        lemma_tree_below(child, Some(child_namespace(namespace, child.name@)), below);
        assert(below.subrange(0, prefix.len() as int) =~= prefix);
        let entries = child_entries(child, namespace, prefix);
        assert forall|i: int| 0 <= i < entries.len() implies prefix.is_prefix_of(
            #[trigger] entries[i].path,
        ) by {
            lemma_prefix_chain(prefix, below, entries[i].path);
        }
    }
}

proof fn lemma_subdirs_below(
    dir: DirTree,
    namespace: Option<Seq<char>>,
    prefix: Seq<char>,
    n: nat,
)
    ensures
        all_below(subdir_entries(dir, namespace, prefix, n), prefix),
    decreases dir, n,
{
    if n == 0 || n > dir.dirs.len() {
    } else {
        lemma_subdirs_below(dir, namespace, prefix, (n - 1) as nat);
        lemma_child_below(dir.dirs[n - 1], namespace, prefix);
    }
}

/// The entry lies below a directory of the root that the walk does not
/// pass over.
pub open spec fn lies_below_walked_directory(root: DirTree, entry: EntryModel, n: nat) -> bool {
    exists|k: int|
        0 <= k < n && k < root.dirs.len() && !is_reserved_name((#[trigger] root.dirs[k]).name@)
            && child_prefix(Seq::empty(), root.dirs[k].name@).is_prefix_of(entry.path)
}

proof fn lemma_root_subdirs_are_walked(root: DirTree, n: nat)
    ensures
        forall|i: int|
            0 <= i < subdir_entries(root, None, Seq::empty(), n).len()
                ==> lies_below_walked_directory(
                root,
                #[trigger] subdir_entries(root, None, Seq::empty(), n)[i],
                n,
            ),
    decreases n,
{
    if n == 0 || n > root.dirs.len() {
    } else {
        let prefix = Seq::<char>::empty();
        let before = subdir_entries(root, None, prefix, (n - 1) as nat);
        let child = root.dirs[n - 1];
        let added = child_entries(child, None, prefix);
        let all = subdir_entries(root, None, prefix, n);
        lemma_root_subdirs_are_walked(root, (n - 1) as nat);
        lemma_child_below(child, None, prefix);
        assert(all == before + added);
        assert forall|i: int| 0 <= i < all.len() implies lies_below_walked_directory(
            root,
            #[trigger] all[i],
            n,
        ) by {
            if i < before.len() {
                assert(all[i] == before[i]);
                assert(lies_below_walked_directory(root, before[i], (n - 1) as nat));
                let k = choose|k: int|
                    0 <= k < n - 1 && k < root.dirs.len() && !is_reserved_name(
                        (#[trigger] root.dirs[k]).name@,
                    ) && child_prefix(prefix, root.dirs[k].name@).is_prefix_of(before[i].path);
                assert(0 <= k < n && !is_reserved_name(root.dirs[k].name@));
            } else {
                let j = i - before.len();
                assert(all[i] == added[j]);
                assert(!is_skipped(None, child.name@));
                assert(child_prefix(prefix, child.name@).is_prefix_of(added[j].path));
                assert(!is_reserved_name(root.dirs[n - 1].name@));
            }
        }
    }
}

/// Every entry of the walk of a whole tree lies below a directory of the
/// root that bears no reserved name: its path begins with that directory's
/// name and a `/`.
pub proof fn walk_entries_lie_below_walked_directories(root: DirTree, i: int)
    requires
        0 <= i < tree_entries(root, None, Seq::empty()).len(),
    ensures
        lies_below_walked_directory(
            root,
            tree_entries(root, None, Seq::empty())[i],
            root.dirs.len() as nat,
        ),
{
    lemma_files_below(root.files@, None, Seq::empty(), root.files.len() as nat);
    lemma_root_subdirs_are_walked(root, root.dirs.len() as nat);
    let own = file_entries(root.files@, None, Seq::empty(), root.files.len() as nat);
    let below = subdir_entries(root, None, Seq::empty(), root.dirs.len() as nat);
    assert(own.len() == 0);
    assert(tree_entries(root, None, Seq::empty()) =~= below);
}

} // verus!
