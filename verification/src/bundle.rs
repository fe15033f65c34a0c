//! The bundle: where its parts lie, what its metadata says, and the order in
//! which a run makes them.

use vstd::prelude::*;

verus! {

/// The segments of a path, as plain values.
pub open spec fn names(path: Seq<String>) -> Seq<Seq<char>> {
    Seq::new(path.len(), |i: int| path[i]@)
}

/// The name of the bundle's directory for a package.
pub open spec fn docset_dir_name(package: Seq<char>) -> Seq<char> {
    package + ".docset"@
}

/// The segments, below the workspace's root, of the tree of pages.
pub open spec fn rustdoc_root_of() -> Seq<Seq<char>> {
    seq!["target"@, "doc"@]
}

/// The segments, below the workspace's root, of a package's bundle.
pub open spec fn docset_root_of(package: Seq<char>) -> Seq<Seq<char>> {
    seq!["target"@, "docset"@, docset_dir_name(package)]
}

/// Where the parts of a bundle lie, each as the segments of its path below
/// the workspace's root.
#[derive(Debug)]
pub struct BundleLayout {
    /// The tree of pages that the bundle is made from.
    pub rustdoc_root: Vec<String>,
    /// The bundle itself.
    pub docset_root: Vec<String>,
    /// The directory of the index and of the copied pages.
    pub resources: Vec<String>,
    /// The search index.
    pub index_file: Vec<String>,
    /// The copy of the tree of pages.
    pub documents: Vec<String>,
    /// The metadata.
    pub info_plist: Vec<String>,
}

fn child(base: &Vec<String>, name: &str) -> (path: Vec<String>)
    ensures
        names(path@) == names(base@).push(name@),
{
    let mut path: Vec<String> = Vec::new();
    let mut i: usize = 0;
    while i < base.len()
        invariant
            i <= base.len(),
            path@.len() == i,
            forall|j: int| 0 <= j < i ==> path@[j]@ == base@[j]@,
        decreases base.len() - i,
    {
        path.push(base[i].clone());
        i += 1;
    }
    path.push(String::from_str(name));
    assert(names(path@) =~= names(base@).push(name@));
    path
}

/// The layout of the bundle of the package `package_name`.
pub fn bundle_layout(package_name: &str) -> (layout: BundleLayout)
    ensures
        names(layout.rustdoc_root@) == rustdoc_root_of(),
        names(layout.docset_root@) == docset_root_of(package_name@),
        names(layout.resources@) == docset_root_of(package_name@) + seq![
            "Contents"@,
            "Resources"@,
        ],
        names(layout.index_file@) == docset_root_of(package_name@) + seq![
            "Contents"@,
            "Resources"@,
            "docSet.dsidx"@,
        ],
        names(layout.documents@) == docset_root_of(package_name@) + seq![
            "Contents"@,
            "Resources"@,
            "Documents"@,
        ],
        names(layout.info_plist@) == docset_root_of(package_name@) + seq![
            "Contents"@,
            "Info.plist"@,
        ],
{
    let root: Vec<String> = Vec::new();
    assert(names(root@) =~= Seq::<Seq<char>>::empty());
    let target = child(&root, "target");
    let rustdoc_root = child(&target, "doc");
    let mut dir_name = String::from_str(package_name);
    dir_name.append(".docset");
    let docset = child(&target, "docset");
    let docset_root = child(&docset, dir_name.as_str());
    let contents = child(&docset_root, "Contents");
    let resources = child(&contents, "Resources");
    let index_file = child(&resources, "docSet.dsidx");
    let documents = child(&resources, "Documents");
    let info_plist = child(&contents, "Info.plist");
    assert(names(rustdoc_root@) =~= rustdoc_root_of());
    assert(names(docset_root@) =~= docset_root_of(package_name@));
    assert(names(resources@) =~= docset_root_of(package_name@) + seq![
        "Contents"@,
        "Resources"@,
    ]);
    assert(names(index_file@) =~= docset_root_of(package_name@) + seq![
        "Contents"@,
        "Resources"@,
        "docSet.dsidx"@,
    ]);
    assert(names(documents@) =~= docset_root_of(package_name@) + seq![
        "Contents"@,
        "Resources"@,
        "Documents"@,
    ]);
    assert(names(info_plist@) =~= docset_root_of(package_name@) + seq![
        "Contents"@,
        "Info.plist"@,
    ]);
    BundleLayout { rustdoc_root, docset_root, resources, index_file, documents, info_plist }
}

/// The bundle's metadata for a package: a property list that gives the
/// package's name as bundle identifier, bundle name and platform family,
/// its `index.html` as the index page, and marks the bundle as a docset.
pub open spec fn metadata_of(package: Seq<char>) -> Seq<char> {
    "<?xml version=\"1.0\" encoding=\"UTF-8\"?>
        <!DOCTYPE plist PUBLIC \"-//Apple//DTD PLIST 1.0//EN\" \"http://www.apple.com/DTDs/PropertyList-1.0.dtd\">
        <plist version=\"1.0\">
        <dict>
            <key>CFBundleIdentifier</key>
                <string>"@
        + package + "</string>
            <key>CFBundleName</key>
                <string>"@ + package
        + "</string>
            <key>dashIndexFilePath</key>
                <string>"@ + package
        + "/index.html</string>
            <key>DocSetPlatformFamily</key>
                <string>"@ + package
        + "</string>
            <key>isDashDocset</key>
                <true/>
        </dict>
        </plist>"@
}

/// The text of the bundle's metadata file.
pub fn metadata_text(package_name: &str) -> (text: String)
    ensures
        text@ == metadata_of(package_name@),
{
    let mut text = String::from_str(
        "<?xml version=\"1.0\" encoding=\"UTF-8\"?>
        <!DOCTYPE plist PUBLIC \"-//Apple//DTD PLIST 1.0//EN\" \"http://www.apple.com/DTDs/PropertyList-1.0.dtd\">
        <plist version=\"1.0\">
        <dict>
            <key>CFBundleIdentifier</key>
                <string>",
    );
    text.append(package_name);
    text.append(
        "</string>
            <key>CFBundleName</key>
                <string>",
    );
    text.append(package_name);
    text.append(
        "</string>
            <key>dashIndexFilePath</key>
                <string>",
    );
    text.append(package_name);
    text.append(
        "/index.html</string>
            <key>DocSetPlatformFamily</key>
                <string>",
    );
    text.append(package_name);
    text.append(
        "</string>
            <key>isDashDocset</key>
                <true/>
        </dict>
        </plist>",
    );
    text
}

/// One step of a run. Each is done once the one before it has succeeded; a
/// step that fails ends the run.
#[derive(Clone, Copy, Debug, PartialEq, Eq, Structural)]
pub enum Step {
    /// Remove what an earlier documentation build left.
    CleanArtifacts,
    /// Build the tree of pages.
    BuildDocs,
    /// Read the tree of pages and collect its entries.
    CollectEntries,
    /// Remove the bundle that an earlier run left.
    RemoveOldBundle,
    /// Create the bundle's directories.
    CreateSkeleton,
    /// Write the search index.
    WriteIndex,
    /// Copy the tree of pages into the bundle.
    CopyDocuments,
    /// Write the metadata.
    WriteMetadata,
    /// Nothing is left to do.
    Finished,
}

/// The place of a step in a run.
pub open spec fn rank(step: Step) -> nat {
    match step {
        Step::CleanArtifacts => 0,
        Step::BuildDocs => 1,
        Step::CollectEntries => 2,
        Step::RemoveOldBundle => 3,
        Step::CreateSkeleton => 4,
        Step::WriteIndex => 5,
        Step::CopyDocuments => 6,
        Step::WriteMetadata => 7,
        Step::Finished => 8,
    }
}

/// The step that a run begins with.
pub open spec fn first_step_of(clean_first: bool) -> Step {
    if clean_first {
        Step::CleanArtifacts
    } else {
        Step::BuildDocs
    }
}

/// The step that follows `step`. Whether a bundle stands at the target is
/// asked once the entries are collected: an old bundle is removed before
/// anything new is written.
pub open spec fn step_after(step: Step, bundle_exists: bool) -> Step {
    match step {
        Step::CleanArtifacts => Step::BuildDocs,
        Step::BuildDocs => Step::CollectEntries,
        Step::CollectEntries => if bundle_exists {
            Step::RemoveOldBundle
        } else {
            Step::CreateSkeleton
        },
        Step::RemoveOldBundle => Step::CreateSkeleton,
        Step::CreateSkeleton => Step::WriteIndex,
        Step::WriteIndex => Step::CopyDocuments,
        Step::CopyDocuments => Step::WriteMetadata,
        Step::WriteMetadata => Step::Finished,
        Step::Finished => Step::Finished,
    }
}

/// The first step of a run: the clean-up where it is asked for, else the
/// documentation build.
pub fn first_step(clean_first: bool) -> (step: Step)
    ensures
        step == first_step_of(clean_first),
{
    if clean_first {
        Step::CleanArtifacts
    } else {
        Step::BuildDocs
    }
}

/// The step to take once `step` has succeeded. `bundle_exists` says whether
/// a bundle stands at the target; it is read only after the entries are
/// collected.
pub fn next_step(step: Step, bundle_exists: bool) -> (next: Step)
    ensures
        next == step_after(step, bundle_exists),
{
    match step {
        Step::CleanArtifacts => Step::BuildDocs,
        Step::BuildDocs => Step::CollectEntries,
        Step::CollectEntries => {
            if bundle_exists {
                Step::RemoveOldBundle
            } else {
                Step::CreateSkeleton
            }
        },
        Step::RemoveOldBundle => Step::CreateSkeleton,
        Step::CreateSkeleton => Step::WriteIndex,
        Step::WriteIndex => Step::CopyDocuments,
        Step::CopyDocuments => Step::WriteMetadata,
        Step::WriteMetadata => Step::Finished,
        Step::Finished => Step::Finished,
    }
}

/// Every step but the last leads to a later one, so a run ends; and where a
/// bundle stands at the target, the bundle's directories are created only
/// after it was removed.
pub proof fn steps_go_forward(step: Step, bundle_exists: bool)
    ensures
        step != Step::Finished ==> rank(step_after(step, bundle_exists)) > rank(step),
        bundle_exists && step_after(step, bundle_exists) == Step::CreateSkeleton ==> step
            == Step::RemoveOldBundle,
{
}

} // verus!
