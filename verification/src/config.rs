//! What a run is asked to do, and what that asks of the documentation build.

use vstd::prelude::*;

verus! {

/// Which packages of the workspace are documented.
#[derive(Debug, PartialEq, Eq)]
pub enum Package {
    All,
    Current,
    Single(String),
    List(Vec<String>),
}

/// The options of one run.
#[derive(Debug)]
pub struct GenerateConfig {
    pub package: Package,
    pub no_dependencies: bool,
    pub doc_private_items: bool,
    pub features: Vec<String>,
    pub no_default_features: bool,
    pub all_features: bool,
    pub exclude: Vec<String>,
    pub clean: bool,
    pub lib: bool,
    pub bins: Option<Vec<String>>,
}

impl Default for GenerateConfig {
    fn default() -> (cfg: GenerateConfig)
        ensures
            cfg.package == Package::Current,
            !cfg.no_dependencies,
            !cfg.doc_private_items,
            cfg.features@.len() == 0,
            cfg.no_default_features,
            !cfg.all_features,
            cfg.exclude@.len() == 0,
            cfg.clean,
            !cfg.lib,
            cfg.bins is None,
    {
        GenerateConfig {
            package: Package::Current,
            no_dependencies: false,
            doc_private_items: false,
            exclude: Vec::new(),
            features: Vec::new(),
            no_default_features: true,
            all_features: false,
            clean: true,
            lib: false,
            bins: None,
        }
    }
}

/// A combination of options that no run accepts.
#[derive(Clone, Copy, Debug, PartialEq, Eq, Structural)]
pub enum UsageError {
    /// Packages are excluded, but not from a run over all packages.
    ExcludeWithoutAll,
}

impl UsageError {
    /// What the message says.
    pub open spec fn text(self) -> Seq<char> {
        match self {
            UsageError::ExcludeWithoutAll => "--exclude must be used with --all"@,
        }
    }

    /// The message shown to the user.
    pub fn message(&self) -> (msg: String)
        ensures
            msg@ == self.text(),
    {
        match self {
            UsageError::ExcludeWithoutAll => String::from_str("--exclude must be used with --all"),
        }
    }
}

/// Which executables of a package are documented.
#[derive(Debug, PartialEq, Eq)]
pub enum BinRule {
    /// Every executable.
    All,
    /// The named executables.
    Just(Vec<String>),
    /// No executable.
    Nothing,
}

/// Which targets of a package are documented.
#[derive(Debug, PartialEq, Eq)]
pub enum TargetFilter {
    /// What the build documents by default.
    Default,
    /// The library where `lib` is set, else what the build picks by default
    /// for it; the executables that `bins` names; nothing else.
    Only { lib: bool, bins: BinRule },
}

/// The packages that the documentation build is asked for.
#[derive(Debug, PartialEq, Eq)]
pub enum PackageSelection {
    /// The workspace's default members.
    Default,
    /// Every package of the workspace.
    All,
    /// Every package of the workspace but the named ones.
    AllBut(Vec<String>),
    /// The one named package.
    One(String),
    /// The named packages.
    Listed(Vec<String>),
}

/// Where the bundle's name comes from.
#[derive(Debug, PartialEq, Eq)]
pub enum NameSource {
    /// The name of the workspace's root directory.
    WorkspaceDirectory,
    /// The name of the workspace's current package.
    CurrentPackage,
    /// The name that was given.
    Given(String),
}

/// What is asked of the documentation build, and what follows it.
#[derive(Debug)]
pub struct DocRequest {
    pub document_dependencies: bool,
    pub all_features: bool,
    pub no_default_features: bool,
    pub features: Vec<String>,
    pub filter: TargetFilter,
    pub document_private_items: bool,
    pub packages: PackageSelection,
    pub name_source: NameSource,
    pub clean_first: bool,
}

/// The target filter that the options `lib` and `bins` ask for.
pub open spec fn filter_of(lib: bool, bins: Option<Vec<String>>) -> TargetFilter {
    if lib || bins is Some {
        TargetFilter::Only {
            lib,
            bins: match bins {
                Some(names) => if names@.len() == 0 {
                    BinRule::All
                } else {
                    BinRule::Just(names)
                },
                None => BinRule::Nothing,
            },
        }
    } else {
        TargetFilter::Default
    }
}

/// The packages that a choice of packages and a list of exclusions ask for.
pub open spec fn selection_of(package: Package, exclude: Vec<String>) -> PackageSelection {
    match package {
        Package::All => if exclude@.len() == 0 {
            PackageSelection::All
        } else {
            PackageSelection::AllBut(exclude)
        },
        Package::Current => PackageSelection::Default,
        Package::Single(name) => PackageSelection::One(name),
        Package::List(names) => PackageSelection::Listed(names),
    }
}

/// Where the bundle of a choice of packages takes its name from.
pub open spec fn name_source_of(package: Package) -> NameSource {
    match package {
        Package::All => NameSource::WorkspaceDirectory,
        Package::Current => NameSource::CurrentPackage,
        Package::Single(name) => NameSource::Given(name),
        Package::List(_) => NameSource::WorkspaceDirectory,
    }
}

/// Exclusions are accepted only in a run over all packages.
pub open spec fn usage_of(package: Package, exclude: Vec<String>) -> Result<(), UsageError> {
    if !(package is All) && exclude@.len() != 0 {
        Err(UsageError::ExcludeWithoutAll)
    } else {
        Ok(())
    }
}

/// Tests the options against each other: exclusions without a run over all
/// packages are refused, everything else is accepted.
pub fn check_usage(cfg: &GenerateConfig) -> (usage: Result<(), UsageError>)
    ensures
        usage == usage_of(cfg.package, cfg.exclude),
{
    let all = match &cfg.package {
        Package::All => true,
        _ => false,
    };
    if !all && cfg.exclude.len() != 0 {
        Err(UsageError::ExcludeWithoutAll)
    } else {
        Ok(())
    }
}

/// The target filter for the options `lib` and `bins`.
pub fn target_filter(lib: bool, bins: Option<Vec<String>>) -> (filter: TargetFilter)
    ensures
        filter == filter_of(lib, bins),
{
    match bins {
        Some(names) => {
            if names.len() == 0 {
                TargetFilter::Only { lib, bins: BinRule::All }
            } else {
                TargetFilter::Only { lib, bins: BinRule::Just(names) }
            }
        },
        None => {
            if lib {
                TargetFilter::Only { lib, bins: BinRule::Nothing }
            } else {
                TargetFilter::Default
            }
        },
    }
}

/// Turns the options of a run into what is asked of the documentation build.
/// Every option is handed on; the names of the packages go to the selection,
/// and a single named package also names the bundle.
pub fn doc_request(cfg: GenerateConfig) -> (request: DocRequest)
    ensures
        request.document_dependencies == !cfg.no_dependencies,
        request.all_features == cfg.all_features,
        request.no_default_features == cfg.no_default_features,
        request.features == cfg.features,
        request.filter == filter_of(cfg.lib, cfg.bins),
        request.document_private_items == cfg.doc_private_items,
        request.packages == selection_of(cfg.package, cfg.exclude),
        request.name_source == name_source_of(cfg.package),
        request.clean_first == cfg.clean,
{
    let GenerateConfig {
        package,
        no_dependencies,
        doc_private_items,
        features,
        no_default_features,
        all_features,
        exclude,
        clean,
        lib,
        bins,
    } = cfg;
    let filter = target_filter(lib, bins);
    let (packages, name_source) = match package {
        Package::All => {
            if exclude.len() == 0 {
                (PackageSelection::All, NameSource::WorkspaceDirectory)
            } else {
                (PackageSelection::AllBut(exclude), NameSource::WorkspaceDirectory)
            }
        },
        Package::Current => (PackageSelection::Default, NameSource::CurrentPackage),
        Package::Single(name) => {
            let given = name.clone();
            (PackageSelection::One(name), NameSource::Given(given))
        },
        Package::List(names) => (PackageSelection::Listed(names), NameSource::WorkspaceDirectory),
    };
    DocRequest {
        document_dependencies: !no_dependencies,
        all_features,
        no_default_features,
        features,
        filter,
        document_private_items: doc_private_items,
        packages,
        name_source,
        clean_first: clean,
    }
}

/// Exclusions beside anything but a run over all packages are a usage error,
/// whatever the other options say.
pub proof fn exclusions_need_all_packages(package: Package, exclude: Vec<String>)
    ensures
        usage_of(package, exclude) is Err <==> !(package is All) && exclude@.len() > 0,
        usage_of(package, exclude) is Err ==> usage_of(package, exclude)
            == Err::<(), UsageError>(UsageError::ExcludeWithoutAll),
{
}

} // verus!
