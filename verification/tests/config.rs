use cargo_docset::config::{
    check_usage, doc_request, target_filter, BinRule, GenerateConfig, NameSource,
    Package, PackageSelection, TargetFilter, UsageError,
};

fn strings(items: &[&str]) -> Vec<String> {
    items.iter().map(|s| s.to_string()).collect()
}

#[test]
fn default_options() {
    let cfg = GenerateConfig::default();
    assert_eq!(cfg.package, Package::Current);
    assert!(!cfg.no_dependencies);
    assert!(!cfg.doc_private_items);
    assert!(cfg.features.is_empty());
    assert!(cfg.no_default_features);
    assert!(!cfg.all_features);
    assert!(cfg.exclude.is_empty());
    assert!(cfg.clean);
    assert!(!cfg.lib);
    assert_eq!(cfg.bins, None);
}

#[test]
fn exclusions_with_a_single_package_are_a_usage_error() {
    let mut cfg = GenerateConfig::default();
    cfg.package = Package::Single("serde".to_string());
    cfg.exclude = strings(&["other"]);
    assert_eq!(check_usage(&cfg), Err(UsageError::ExcludeWithoutAll));
    assert_eq!(UsageError::ExcludeWithoutAll.message(), "--exclude must be used with --all");
}

#[test]
fn exclusions_need_all_packages() {
    let mut cfg = GenerateConfig::default();
    cfg.exclude = strings(&["other"]);
    assert_eq!(check_usage(&cfg), Err(UsageError::ExcludeWithoutAll));
    cfg.package = Package::List(strings(&["a", "b"]));
    assert_eq!(check_usage(&cfg), Err(UsageError::ExcludeWithoutAll));
    cfg.package = Package::All;
    assert_eq!(check_usage(&cfg), Ok(()));
}

#[test]
fn no_exclusions_are_always_accepted() {
    let mut cfg = GenerateConfig::default();
    assert_eq!(check_usage(&cfg), Ok(()));
    cfg.package = Package::Single("serde".to_string());
    assert_eq!(check_usage(&cfg), Ok(()));
    cfg.package = Package::List(strings(&["a"]));
    assert_eq!(check_usage(&cfg), Ok(()));
    cfg.package = Package::All;
    assert_eq!(check_usage(&cfg), Ok(()));
}

#[test]
fn target_filters() {
    assert_eq!(target_filter(false, None), TargetFilter::Default);
    assert_eq!(target_filter(true, None), TargetFilter::Only { lib: true, bins: BinRule::Nothing });
    assert_eq!(
        target_filter(false, Some(vec![])),
        TargetFilter::Only { lib: false, bins: BinRule::All }
    );
    assert_eq!(
        target_filter(true, Some(strings(&["tool"]))),
        TargetFilter::Only { lib: true, bins: BinRule::Just(strings(&["tool"])) }
    );
}

#[test]
fn request_of_the_default_options() {
    let request = doc_request(GenerateConfig::default());
    assert!(request.document_dependencies);
    assert!(!request.all_features);
    assert!(request.no_default_features);
    assert!(request.features.is_empty());
    assert_eq!(request.filter, TargetFilter::Default);
    assert!(!request.document_private_items);
    assert_eq!(request.packages, PackageSelection::Default);
    assert_eq!(request.name_source, NameSource::CurrentPackage);
    assert!(request.clean_first);
}

#[test]
fn request_for_a_single_package() {
    let request = doc_request(GenerateConfig {
        package: Package::Single("serde".to_string()),
        no_dependencies: true,
        doc_private_items: true,
        features: strings(&["derive", "std"]),
        no_default_features: false,
        all_features: true,
        exclude: vec![],
        clean: false,
        lib: true,
        bins: Some(strings(&["tool"])),
    });
    assert!(!request.document_dependencies);
    assert!(request.all_features);
    assert!(!request.no_default_features);
    assert_eq!(request.features, strings(&["derive", "std"]));
    assert_eq!(
        request.filter,
        TargetFilter::Only { lib: true, bins: BinRule::Just(strings(&["tool"])) }
    );
    assert!(request.document_private_items);
    assert_eq!(request.packages, PackageSelection::One("serde".to_string()));
    assert_eq!(request.name_source, NameSource::Given("serde".to_string()));
    assert!(!request.clean_first);
}

#[test]
fn request_for_all_packages() {
    let mut cfg = GenerateConfig::default();
    cfg.package = Package::All;
    let request = doc_request(cfg);
    assert_eq!(request.packages, PackageSelection::All);
    assert_eq!(request.name_source, NameSource::WorkspaceDirectory);

    let mut cfg = GenerateConfig::default();
    cfg.package = Package::All;
    cfg.exclude = strings(&["x", "y"]);
    let request = doc_request(cfg);
    assert_eq!(request.packages, PackageSelection::AllBut(strings(&["x", "y"])));
    assert_eq!(request.name_source, NameSource::WorkspaceDirectory);
}

#[test]
fn request_for_a_list_of_packages() {
    let mut cfg = GenerateConfig::default();
    cfg.package = Package::List(strings(&["a", "b"]));
    let request = doc_request(cfg);
    assert_eq!(request.packages, PackageSelection::Listed(strings(&["a", "b"])));
    assert_eq!(request.name_source, NameSource::WorkspaceDirectory);
}
