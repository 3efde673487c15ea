use drt_tools::architectures::Architecture;
use drt_tools::archive::{Extension, Suite, SuiteOrCodename};
use drt_tools::cli::Field;
use drt_tools::nmu_eso::{
    combine_outdated, expand_suite_for_binaries, expand_suite_for_sources, generate_wb_commands,
    outdated_packages, outdated_source, parse_package_relationships, requires_extra_depends,
    BinaryPackage, CombinedOutdatedPackage, OutdatedPackage,
};
use drt_tools::package::{PackageName, VersionedPackage};
use drt_tools::source_packages::{BinaryPackage as SourcesBinaryPackage, SourcePackage, SourcePackages};
use drt_tools::source_packages::SourceWithVersion;
use drt_tools::udd_bugs::{Severity, UDDBug, UDDBugs};
use drt_tools::version::PackageVersion;
use drt_tools::wb::{Error, WBArchitecture};

fn name(s: &str) -> PackageName {
    PackageName::try_from(s).unwrap()
}

fn version(s: &str) -> PackageVersion {
    PackageVersion::try_from(s).unwrap()
}

fn versioned(p: &str, v: &str) -> VersionedPackage {
    VersionedPackage { package: name(p), version: version(v) }
}

fn sources_binary(p: &str, v: &str) -> SourcesBinaryPackage {
    SourcesBinaryPackage { source: None, package: name(p), version: version(v), multi_arch: None }
}

fn eso_binary(p: &str, v: &str, arch: Architecture, built_using: &str) -> BinaryPackage {
    BinaryPackage {
        package: sources_binary(p, v),
        architecture: arch,
        built_using: parse_package_relationships(built_using).unwrap(),
        static_built_using: vec![],
        x_cargo_built_using: vec![],
    }
}

#[test]
fn required_extra_depends_is_sorted() {
    assert!(requires_extra_depends().iter().map(|red| red.source).is_sorted());
}

#[test]
fn required_extra_depends_entries() {
    let red = requires_extra_depends();
    assert_eq!(red.len(), 4);
    assert_eq!(red[1].source, "dpkg");
    assert_eq!(red[1].package, "dpkg-dev");
    assert_eq!(red[2].source, "glibc");
    assert_eq!(red[2].package, "libc-bin");
}

#[test]
fn built_using_parsing() {
    let rs = parse_package_relationships("gcc-13 (= 13.2.0-1), rustc (= 1.70.0+dfsg1-1), ").unwrap();
    assert_eq!(rs.len(), 2);
    assert_eq!(rs[0].package.as_str(), "gcc-13");
    assert_eq!(rs[1].to_string(), "rustc (= 1.70.0+dfsg1-1)");
    assert!(parse_package_relationships("Foo (= 1)").is_err());
}

#[test]
fn suites_to_expand() {
    assert_eq!(
        expand_suite_for_sources(SuiteOrCodename::unstable()),
        vec![SuiteOrCodename::unstable()]
    );
    assert_eq!(
        expand_suite_for_sources(SuiteOrCodename::stable()),
        vec![SuiteOrCodename::stable(), SuiteOrCodename::stable_pu()]
    );
    assert_eq!(
        expand_suite_for_sources(SuiteOrCodename::stable_pu()),
        vec![SuiteOrCodename::stable(), SuiteOrCodename::stable_pu()]
    );
    assert_eq!(
        expand_suite_for_binaries(SuiteOrCodename::stable()),
        vec![SuiteOrCodename::stable(), SuiteOrCodename::stable_pu()]
    );
    assert_eq!(
        expand_suite_for_binaries(SuiteOrCodename::stable_pu()),
        vec![SuiteOrCodename::stable_pu()]
    );
    assert_eq!(
        expand_suite_for_binaries(SuiteOrCodename::testing()),
        vec![SuiteOrCodename::testing()]
    );
}

#[test]
fn outdated_built_using() {
    let sources = SourcePackages::new(&[sources_binary("bar", "1.0-2"), sources_binary("foo", "2.0-1")]);
    let fields = [Field::BuiltUsing];
    let current = eso_binary("foo", "2.0-1", Architecture::Amd64, "bar (= 1.0-2)");
    assert!(outdated_source(&fields, &current, &sources).is_none());

    let outdated = eso_binary("foo", "2.0-1", Architecture::Amd64, "bar (= 1.0-1), bar (= 1.0-1), gone (= 3)");
    let o = outdated_source(&fields, &outdated, &sources).unwrap();
    assert_eq!(o.source.package.as_str(), "foo");
    assert_eq!(o.source.version.to_string(), "2.0-1");
    assert_eq!(o.architecture, WBArchitecture::Architecture(Architecture::Amd64));
    assert_eq!(o.built_using.len(), 2);
    assert_eq!(o.built_using[0].package.as_str(), "bar");
    assert_eq!(o.built_using[1].package.as_str(), "gone");

    // Arch: all packages are never rebuilt
    let all = eso_binary("foo", "2.0-1", Architecture::All, "bar (= 1.0-1)");
    assert!(outdated_source(&fields, &all, &sources).is_none());
    // only the chosen fields count
    assert!(outdated_source(&[Field::StaticBuiltUsing], &outdated, &sources).is_none());

    let packages = outdated_packages(&fields, &[current, outdated, all], &sources, Suite::Unstable);
    assert_eq!(packages.len(), 2);
    assert_eq!(packages[0].outdated_dependency.package.as_str(), "bar");
    assert_eq!(packages[1].outdated_dependency.package.as_str(), "gone");
    assert_eq!(packages[0].suite, Suite::Unstable);
}

#[test]
fn combining() {
    let packages = vec![
        OutdatedPackage {
            source: versioned("zathura", "1.0-1"),
            suite: Suite::Unstable,
            outdated_dependency: versioned("rustc", "1.0-1"),
            architecture: WBArchitecture::Architecture(Architecture::Amd64),
        },
        OutdatedPackage {
            source: versioned("zathura", "1.0-2"),
            suite: Suite::Unstable,
            outdated_dependency: versioned("rustc", "1.1-1"),
            architecture: WBArchitecture::Architecture(Architecture::Amd64),
        },
        OutdatedPackage {
            source: versioned("zathura", "1.0-2"),
            suite: Suite::Unstable,
            outdated_dependency: versioned("gcc", "1"),
            architecture: WBArchitecture::Architecture(Architecture::Amd64),
        },
        OutdatedPackage {
            source: versioned("broken", "1"),
            suite: Suite::Unstable,
            outdated_dependency: versioned("gcc", "1"),
            architecture: WBArchitecture::Any,
        },
        OutdatedPackage {
            source: versioned("abc", "1"),
            suite: Suite::Unstable,
            outdated_dependency: versioned("gcc", "1"),
            architecture: WBArchitecture::Any,
        },
    ];
    let bugs = UDDBugs::new(vec![UDDBug {
        id: 1,
        source: vec![name("broken")],
        severity: Severity::Serious,
        title: "FTBFS".to_string(),
    }]);
    let combined = combine_outdated(&packages, &bugs);
    assert_eq!(combined.len(), 2);
    assert_eq!(combined[0].source.package.as_str(), "abc");
    assert_eq!(combined[1].source.package.as_str(), "zathura");
    assert_eq!(combined[1].source.version.to_string(), "1.0-2");
    assert_eq!(combined[1].outdated_dependencies.len(), 2);
    assert_eq!(combined[1].outdated_dependencies[0].package.as_str(), "gcc");
    assert_eq!(combined[1].outdated_dependencies[1].package.as_str(), "rustc");
    assert_eq!(combined[1].outdated_dependencies[1].version.to_string(), "1.1-1");

    let none = combine_outdated(&packages, &UDDBugs::default());
    assert_eq!(none.len(), 3);
}

#[test]
fn wb_commands() {
    let sources = SourcePackages::new(&[sources_binary("glibc", "2.40-2"), sources_binary("foo", "1-1")]);
    let combined = vec![CombinedOutdatedPackage {
        source: versioned("foo", "1-1"),
        suite: Suite::Unstable,
        architecture: WBArchitecture::Architecture(Architecture::Amd64),
        outdated_dependencies: vec![versioned("glibc", "2.40-1"), versioned("zlib", "1")],
    }];
    let commands = generate_wb_commands(&combined, &[], 50, &sources).unwrap();
    assert_eq!(commands.len(), 1);
    assert_eq!(
        commands[0].to_string(),
        "nmu foo_1-1 . amd64 . unstable . -m \"Rebuild for outdated Built-Using (glibc/2.40-1, zlib/1)\" --extra-depends \"libc-bin (>= 2.40-2)\"\nbp 50 foo_1-1 . amd64 . unstable"
    );

    let commands = generate_wb_commands(
        &combined,
        &[Field::BuiltUsing, Field::StaticBuiltUsing],
        0,
        &SourcePackages::new(&[]),
    )
    .unwrap();
    assert_eq!(
        commands[0].to_string(),
        "nmu foo_1-1 . amd64 . unstable . -m \"Rebuild for outdated Built-Using/Static-Built-Using (glibc/2.40-1, zlib/1)\"\nbp 0 foo_1-1 . amd64 . unstable"
    );

    let bad = vec![CombinedOutdatedPackage {
        source: versioned("foo", "1-1"),
        suite: Suite::Testing(Some(Extension::ProposedUpdates)),
        architecture: WBArchitecture::All,
        outdated_dependencies: vec![versioned("zlib", "1")],
    }];
    assert!(matches!(
        generate_wb_commands(&bad, &[], 0, &sources),
        Err(Error::InvalidArchitecture(WBArchitecture::All, _))
    ));
}

fn acmetool() -> BinaryPackage {
    BinaryPackage {
        package: SourcesBinaryPackage {
            source: SourceWithVersion::parse("acmetool (0.2.2-3)"),
            package: name("acmetool"),
            version: version("0.2.2-3+b1"),
            multi_arch: None,
        },
        architecture: Architecture::Amd64,
        built_using: parse_package_relationships("golang-1.24 (= 1.24.4-1)").unwrap(),
        static_built_using: vec![],
        x_cargo_built_using: vec![],
    }
}

fn source_stanza(p: &str, v: &str, extra_source_only: bool) -> SourcePackage {
    SourcePackage { package: name(p), version: version(v), extra_source_only }
}

fn eso_rebuilds(stanzas: &[SourcePackage]) -> Vec<String> {
    let binaries = [acmetool()];
    let sources = SourcePackages::new_with_source(stanzas, &[]);
    let packages = outdated_packages(&[Field::BuiltUsing], &binaries, &sources, Suite::Unstable);
    let combined = combine_outdated(&packages, &UDDBugs::default());
    generate_wb_commands(&combined, &[Field::BuiltUsing], 0, &sources)
        .unwrap()
        .iter()
        .map(|c| c.to_string())
        .collect()
}

#[test]
fn nmu_eso_base() {
    let commands = eso_rebuilds(&[
        source_stanza("acmetool", "0.2.2-3", false),
        source_stanza("golang-1.24", "1.24.4-1", true),
        source_stanza("golang-1.24", "1.24.9-1", false),
    ]);
    assert_eq!(commands.len(), 1);
    assert!(commands[0].starts_with("nmu acmetool_0.2.2-3 . amd64 . unstable ."));
}

#[test]
fn only_eso() {
    let commands = eso_rebuilds(&[
        source_stanza("acmetool", "0.2.2-3", false),
        source_stanza("golang-1.24", "1.24.4-1", true),
    ]);
    assert_eq!(commands.len(), 1);
    assert!(commands[0].starts_with("nmu acmetool_0.2.2-3 . amd64 . unstable ."));
}

#[test]
fn non_existing_source() {
    let commands = eso_rebuilds(&[source_stanza("acmetool", "0.2.2-3", false)]);
    assert_eq!(commands.len(), 1);
    assert!(commands[0].starts_with("nmu acmetool_0.2.2-3 . amd64 . unstable ."));
}

#[test]
fn current_built_using_needs_no_rebuild() {
    let commands = eso_rebuilds(&[
        source_stanza("acmetool", "0.2.2-3", false),
        source_stanza("golang-1.24", "1.24.4-1", false),
    ]);
    assert!(commands.is_empty());
}
