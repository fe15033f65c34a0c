use cargo_docset::bundle::{bundle_layout, first_step, metadata_text, next_step, Step};

#[test]
fn layout_of_a_bundle() {
    let layout = bundle_layout("mycrate");
    assert_eq!(layout.rustdoc_root, vec!["target", "doc"]);
    assert_eq!(layout.docset_root, vec!["target", "docset", "mycrate.docset"]);
    assert_eq!(layout.resources, vec!["target", "docset", "mycrate.docset", "Contents", "Resources"]);
    assert_eq!(
        layout.index_file,
        vec!["target", "docset", "mycrate.docset", "Contents", "Resources", "docSet.dsidx"]
    );
    assert_eq!(
        layout.documents,
        vec!["target", "docset", "mycrate.docset", "Contents", "Resources", "Documents"]
    );
    assert_eq!(layout.info_plist, vec!["target", "docset", "mycrate.docset", "Contents", "Info.plist"]);
}

#[test]
fn layout_of_a_bundle_without_a_name() {
    assert_eq!(bundle_layout("").docset_root, vec!["target", "docset", ".docset"]);
}

#[test]
fn metadata_of_a_package() {
    let expected = [
        "<?xml version=\"1.0\" encoding=\"UTF-8\"?>",
        "        <!DOCTYPE plist PUBLIC \"-//Apple//DTD PLIST 1.0//EN\" \"http://www.apple.com/DTDs/PropertyList-1.0.dtd\">",
        "        <plist version=\"1.0\">",
        "        <dict>",
        "            <key>CFBundleIdentifier</key>",
        "                <string>mycrate</string>",
        "            <key>CFBundleName</key>",
        "                <string>mycrate</string>",
        "            <key>dashIndexFilePath</key>",
        "                <string>mycrate/index.html</string>",
        "            <key>DocSetPlatformFamily</key>",
        "                <string>mycrate</string>",
        "            <key>isDashDocset</key>",
        "                <true/>",
        "        </dict>",
        "        </plist>",
    ]
    .join("\n");
    assert_eq!(metadata_text("mycrate"), expected);
}

#[test]
fn metadata_is_the_same_each_time() {
    assert_eq!(metadata_text("a-b"), metadata_text("a-b"));
    assert_ne!(metadata_text("a"), metadata_text("b"));
}

#[test]
fn steps_of_a_run_that_cleans_and_replaces() {
    let mut steps = vec![first_step(true)];
    while *steps.last().unwrap() != Step::Finished {
        let next = next_step(*steps.last().unwrap(), true);
        steps.push(next);
    }
    assert_eq!(
        steps,
        vec![
            Step::CleanArtifacts,
            Step::BuildDocs,
            Step::CollectEntries,
            Step::RemoveOldBundle,
            Step::CreateSkeleton,
            Step::WriteIndex,
            Step::CopyDocuments,
            Step::WriteMetadata,
            Step::Finished,
        ]
    );
}

#[test]
fn steps_of_a_first_run_without_cleaning() {
    let mut steps = vec![first_step(false)];
    while *steps.last().unwrap() != Step::Finished {
        let next = next_step(*steps.last().unwrap(), false);
        steps.push(next);
    }
    assert_eq!(
        steps,
        vec![
            Step::BuildDocs,
            Step::CollectEntries,
            Step::CreateSkeleton,
            Step::WriteIndex,
            Step::CopyDocuments,
            Step::WriteMetadata,
            Step::Finished,
        ]
    );
}

#[test]
fn a_finished_run_stays_finished() {
    assert_eq!(next_step(Step::Finished, true), Step::Finished);
    assert_eq!(next_step(Step::Finished, false), Step::Finished);
}
