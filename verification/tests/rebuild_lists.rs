use drt_tools::architectures::{Architecture};
use drt_tools::archive::{Component, MultiArch, SuiteOrCodename};
use drt_tools::binnmu_buildinfo::{process, strip_signature, SkipReason};
use drt_tools::buildinfo::{parse_architecture_list, parse_component_list, Buildinfo};
use drt_tools::cli::BinNMUsOptions;
use drt_tools::nmu_eso::parse_package_relationships;
use drt_tools::nmu_list::{list_commands, list_token, ListOutcome};
use drt_tools::nmu_transition::{transition_line, TransitionOutcome};
use drt_tools::package::PackageName;
use drt_tools::prepare_binnmus::{prepare_binnmu, prepare_line, PrepareError, PrepareOutcome};
use drt_tools::source_packages::{BinaryPackage, SourcePackage, SourcePackages};
use drt_tools::udd_bugs::{parse_source_list, Severity, UDDBug, UDDBugs};
use drt_tools::version::PackageVersion;
use drt_tools::wb::{Error, WBArchitecture};
use drt_tools::ParseError;

fn options(architecture: Option<Vec<WBArchitecture>>) -> BinNMUsOptions {
    BinNMUsOptions {
        message: "Rebuild for transition".to_string(),
        build_priority: None,
        dep_wait: None,
        extra_depends: None,
        suite: SuiteOrCodename::unstable(),
        architecture,
    }
}

fn sources() -> SourcePackages {
    SourcePackages::new(&[
        BinaryPackage {
            source: None,
            package: PackageName::try_from("zathura").unwrap(),
            version: PackageVersion::try_from("0.5.2-1").unwrap(),
            multi_arch: None,
        },
        BinaryPackage {
            source: None,
            package: PackageName::try_from("girara").unwrap(),
            version: PackageVersion::try_from("0.4.0-1").unwrap(),
            multi_arch: Some(MultiArch::Same),
        },
    ])
}

fn bugs() -> UDDBugs {
    UDDBugs::new(vec![UDDBug {
        id: 9,
        source: parse_source_list("broken").unwrap(),
        severity: Severity::Serious,
        title: "FTBFS".to_string(),
    }])
}

#[test]
fn list_tokens() {
    let o = options(None);
    match list_token("zathura", &o, &sources(), &bugs()).unwrap() {
        ListOutcome::Command(c) => assert_eq!(
            c.to_string(),
            "nmu zathura_0.5.2-1 . ANY . unstable . -m \"Rebuild for transition\""
        ),
        _ => panic!("expected a command"),
    }
    match list_token("zathura_0.5.1-1", &o, &sources(), &bugs()).unwrap() {
        ListOutcome::Command(c) => assert_eq!(
            c.to_string(),
            "nmu zathura_0.5.1-1 . ANY . unstable . -m \"Rebuild for transition\""
        ),
        _ => panic!("expected a command"),
    }
    match list_token("unknown", &o, &sources(), &bugs()).unwrap() {
        ListOutcome::Command(c) => {
            assert_eq!(c.to_string(), "nmu unknown . ANY . unstable . -m \"Rebuild for transition\"")
        }
        _ => panic!("expected a command"),
    }
    assert!(matches!(list_token("_1.0", &o, &sources(), &bugs()).unwrap(), ListOutcome::Skipped));
    match list_token("broken", &o, &sources(), &bugs()).unwrap() {
        ListOutcome::FailsToBuild(s) => assert_eq!(s, "broken"),
        _ => panic!("expected a skipped source"),
    }
}

#[test]
fn list_architectures() {
    let o = options(Some(vec![WBArchitecture::Architecture(Architecture::Amd64)]));
    match list_token("zathura", &o, &sources(), &bugs()).unwrap() {
        ListOutcome::Command(c) => assert_eq!(
            c.to_string(),
            "nmu zathura_0.5.2-1 . amd64 . unstable . -m \"Rebuild for transition\""
        ),
        _ => panic!("expected a command"),
    }
    // Multi-Arch: same sources are rebuilt everywhere
    match list_token("girara", &o, &sources(), &bugs()).unwrap() {
        ListOutcome::Command(c) => assert_eq!(
            c.to_string(),
            "nmu girara_0.4.0-1 . ANY . unstable . -m \"Rebuild for transition\""
        ),
        _ => panic!("expected a command"),
    }
    let bad = options(Some(vec![WBArchitecture::Architecture(Architecture::Source)]));
    assert!(matches!(
        list_token("zathura", &bad, &sources(), &bugs()),
        Err(Error::InvalidArchitecture(WBArchitecture::Architecture(Architecture::Source), _))
    ));
    let all = options(Some(vec![WBArchitecture::All]));
    assert!(matches!(list_token("zathura", &all, &sources(), &bugs()), Err(Error::InvalidArchitecture(WBArchitecture::All, _))));
    // the architectures do not matter for Multi-Arch: same sources
    assert!(list_token("girara", &all, &sources(), &bugs()).is_ok());
}

#[test]
fn list_of_sources() {
    let mut o = options(None);
    o.build_priority = Some(-10);
    o.extra_depends = Some(parse_package_relationships("libgirara-dev (>= 0.4)").unwrap());
    let (commands, skipped) = list_commands("zathura\n  broken girara_0.4.0-2\n", &o, &sources(), &bugs()).unwrap();
    assert_eq!(commands.len(), 2);
    assert_eq!(
        commands[0].to_string(),
        "nmu zathura_0.5.2-1 . ANY . unstable . -m \"Rebuild for transition\" --extra-depends \"libgirara-dev (>= 0.4)\"\nbp -10 zathura_0.5.2-1 . ANY . unstable"
    );
    assert!(commands[1].as_str().starts_with("nmu girara_0.4.0-2 . ANY"));
    assert_eq!(skipped, vec!["broken".to_string()]);
    let (commands, skipped) = list_commands("", &o, &sources(), &bugs()).unwrap();
    assert!(commands.is_empty() && skipped.is_empty());
}

#[test]
fn transition_lines() {
    let o = options(None);
    assert!(matches!(transition_line("Dependency level 1", &o, &bugs()).unwrap(), TransitionOutcome::Ignored));
    assert!(matches!(transition_line("", &o, &bugs()).unwrap(), TransitionOutcome::Ignored));
    assert!(matches!(transition_line("zathura [build logs]", &o, &bugs()).unwrap(), TransitionOutcome::Unsupported));
    assert!(matches!(
        transition_line("zathura [build logs] 0.5.2-1 foo", &o, &bugs()).unwrap(),
        TransitionOutcome::InvalidVersion
    ));
    assert!(matches!(
        transition_line("zathura [build logs] (0.5:2) foo", &o, &bugs()).unwrap(),
        TransitionOutcome::InvalidVersion
    ));
    match transition_line("broken [build logs] (1-1) foo", &o, &bugs()).unwrap() {
        TransitionOutcome::FailsToBuild(s) => assert_eq!(s, "broken"),
        _ => panic!("expected a skipped source"),
    }
    match transition_line("zathura [build logs] (0.5.2-1) ✘ ✘", &o, &bugs()).unwrap() {
        TransitionOutcome::Command(c) => assert_eq!(
            c.to_string(),
            "nmu zathura_0.5.2-1 . ANY . unstable . -m \"Rebuild for transition\""
        ),
        _ => panic!("expected a command"),
    }
    match transition_line("zathura (sid only) [build logs] (0.5.2-1) ✘", &o, &bugs()).unwrap() {
        TransitionOutcome::Command(c) => assert!(c.as_str().starts_with("nmu zathura_0.5.2-1 .")),
        _ => panic!("expected a command"),
    }
}

fn buildinfo(source: &str, version: &str, archs: &str) -> Buildinfo {
    Buildinfo {
        source: PackageName::try_from(source).unwrap(),
        version: PackageVersion::try_from(version).unwrap(),
        architecture: parse_architecture_list(archs).unwrap(),
    }
}

#[test]
fn buildinfo_rebuilds() {
    let o = options(None);
    let versions = SourcePackages::new_with_source(
        &[SourcePackage {
            package: PackageName::try_from("zathura").unwrap(),
            version: PackageVersion::try_from("0.5.2-1").unwrap(),
            extra_source_only: false,
        }],
        &[],
    );
    let c = process(buildinfo("zathura", "0.5.2-1+b1", "source amd64 all"), &o, &sources(), &versions, &bugs()).unwrap();
    assert_eq!(c.to_string(), "nmu zathura_0.5.2-1 . amd64 . unstable . -m \"Rebuild for transition\"");
    assert!(matches!(
        process(buildinfo("zathura", "0.5.2-1", "source all"), &o, &sources(), &versions, &bugs()),
        Err(SkipReason::NoArchitecture)
    ));
    assert!(matches!(
        process(buildinfo("zathura", "0.5.1-1", "amd64"), &o, &sources(), &versions, &bugs()),
        Err(SkipReason::NewerVersion)
    ));
    assert!(matches!(
        process(buildinfo("gone", "1-1", "amd64"), &o, &sources(), &versions, &bugs()),
        Err(SkipReason::Removed)
    ));
    let with_broken = SourcePackages::new_with_source(
        &[SourcePackage {
            package: PackageName::try_from("broken").unwrap(),
            version: PackageVersion::try_from("1-1").unwrap(),
            extra_source_only: false,
        }],
        &[],
    );
    assert!(matches!(
        process(buildinfo("broken", "1-1", "amd64"), &o, &sources(), &with_broken, &bugs()),
        Err(SkipReason::FailsToBuild)
    ));
    let girara_versions = SourcePackages::new(&[BinaryPackage {
        source: None,
        package: PackageName::try_from("girara").unwrap(),
        version: PackageVersion::try_from("0.4.0-1").unwrap(),
        multi_arch: None,
    }]);
    let c = process(buildinfo("girara", "0.4.0-1", "i386"), &o, &sources(), &girara_versions, &bugs()).unwrap();
    assert_eq!(c.to_string(), "nmu girara_0.4.0-1 . ANY . unstable . -m \"Rebuild for transition\"");
}

#[test]
fn signatures() {
    let signed = "-----BEGIN PGP SIGNED MESSAGE-----\nHash: SHA512\n\nFormat: 1.0\nSource: picnic\n\n-----BEGIN PGP SIGNATURE-----\nabc\n-----END PGP SIGNATURE-----\n";
    assert_eq!(strip_signature(signed), "Format: 1.0\nSource: picnic\n\n");
    assert_eq!(strip_signature("Format: 1.0\nSource: x"), "Format: 1.0\nSource: x\n");
    assert_eq!(strip_signature("no format here\n"), "");
}

#[test]
fn buildinfo_fields() {
    assert_eq!(
        parse_architecture_list("i386 source").unwrap(),
        vec![Architecture::I386, Architecture::Source]
    );
    assert!(matches!(parse_architecture_list("i386 sauce"), Err(ParseError::InvalidArchitecture)));
    assert_eq!(parse_component_list("main contrib").unwrap(), vec![Component::Main, Component::Contrib]);
    assert!(matches!(parse_component_list("main free"), Err(ParseError::InvalidComponent)));
}

#[test]
fn prepared_lines() {
    let o = options(None);
    assert!(matches!(prepare_line("Dependency level 1", &o, &bugs()).unwrap(), PrepareOutcome::Ignored));
    assert!(matches!(prepare_line("nothing to see", &o, &bugs()).unwrap(), PrepareOutcome::Ignored));
    match prepare_line("zathura\t[build logs] (0.5.2-1) ✘", &o, &bugs()).unwrap() {
        PrepareOutcome::Command(c) => assert_eq!(
            c.to_string(),
            "nmu zathura_0.5.2-1 . ANY . unstable . -m \"Rebuild for transition\""
        ),
        _ => panic!("expected a command"),
    }
    match prepare_line("girara foo 0.4.0-1", &o, &bugs()).unwrap() {
        PrepareOutcome::Command(c) => assert!(c.as_str().starts_with("nmu girara_0.4.0-1 . ANY")),
        _ => panic!("expected a command"),
    }
    match prepare_line("broken x (1-1)", &o, &bugs()).unwrap() {
        PrepareOutcome::FailsToBuild(s) => assert_eq!(s, "broken"),
        _ => panic!("expected a skipped source"),
    }
    assert!(matches!(prepare_binnmu("zathura", "1:", &o, &bugs()), Err(PrepareError::InvalidVersion)));
    let bad = options(Some(vec![WBArchitecture::All]));
    assert!(matches!(
        prepare_binnmu("zathura", "1-1", &bad, &bugs()),
        Err(PrepareError::Command(Error::InvalidArchitecture(WBArchitecture::All, _)))
    ));
}
