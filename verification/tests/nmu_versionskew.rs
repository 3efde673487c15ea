use drt_tools::architectures::Architecture;
use drt_tools::archive::{MultiArch, SuiteOrCodename};
use drt_tools::nmu_versionskew::{load_version_skew, version_skew_command, BinaryPackage};
use drt_tools::package::PackageName;
use drt_tools::source_packages::{BinaryPackage as SourcesBinaryPackage, SourceWithVersion};
use drt_tools::udd_bugs::{parse_source_list, Severity, UDDBug, UDDBugs};
use drt_tools::version::PackageVersion;
use drt_tools::wb::{Error, WBArchitecture};

fn binary(p: &str, source: &str, v: &str, arch: Architecture, ma: Option<MultiArch>) -> BinaryPackage {
    BinaryPackage {
        package: SourcesBinaryPackage {
            source: SourceWithVersion::parse(source),
            package: PackageName::try_from(p).unwrap(),
            version: PackageVersion::try_from(v).unwrap(),
            multi_arch: ma,
        },
        architecture: arch,
    }
}

fn sample() -> Vec<BinaryPackage> {
    let same = Some(MultiArch::Same);
    vec![
        binary("libfoo1", "foo", "1.0-1+b2", Architecture::Amd64, same),
        binary("libfoo1", "foo", "1.0-1+b1", Architecture::I386, same),
        binary("libfoo1", "foo", "1.0-1+b2", Architecture::Arm64, same),
        binary("libfoo1", "foo", "1.0-1", Architecture::Arm64, same),
        // not Multi-Arch: same
        binary("bar", "bar", "2-1+b1", Architecture::Amd64, None),
        binary("bar", "bar", "2-1", Architecture::I386, None),
        // out of date on an architecture
        binary("libbaz1", "baz", "3-2", Architecture::Amd64, same),
        binary("libbaz1", "baz", "3-1+b1", Architecture::I386, same),
        // in sync
        binary("libqux1", "qux", "1-1+b1", Architecture::Amd64, same),
        binary("libqux1", "qux", "1-1+b1", Architecture::I386, same),
        // skewed, but fails to build
        binary("libbroken1", "broken", "1-1+b1", Architecture::Amd64, same),
        binary("libbroken1", "broken", "1-1", Architecture::I386, same),
        // skewed, sorted before foo
        binary("libabc1", "abc", "1-1", Architecture::Amd64, same),
        binary("libabc1", "abc", "1-1+b3", Architecture::I386, same),
        binary("libabc1", "abc", "1-1+b3", Architecture::All, same),
        // never rebuilt
        binary("linux-image", "linux", "6-1+b1", Architecture::Amd64, same),
        binary("linux-image", "linux", "6-1", Architecture::I386, same),
    ]
}

#[test]
fn version_skew() {
    let bugs = UDDBugs::new(vec![UDDBug {
        id: 3,
        source: parse_source_list("broken").unwrap(),
        severity: Severity::Serious,
        title: "FTBFS".to_string(),
    }]);
    let skew = load_version_skew(&sample(), &bugs);
    assert_eq!(skew.len(), 2);
    assert_eq!(skew[0].0.as_str(), "abc");
    assert_eq!(skew[0].1.to_string(), "1-1+b3");
    assert_eq!(skew[0].2, vec![Architecture::Amd64]);
    assert_eq!(skew[1].0.as_str(), "foo");
    assert_eq!(skew[1].1.to_string(), "1.0-1+b2");
    assert_eq!(skew[1].2, vec![Architecture::I386]);

    let all = load_version_skew(&sample(), &UDDBugs::default());
    assert_eq!(all.len(), 3);
    assert_eq!(all[1].0.as_str(), "broken");
}

#[test]
fn version_skew_commands() {
    let source = PackageName::try_from("foo").unwrap();
    let version = PackageVersion::try_from("1.0-1+b2").unwrap();
    let c = version_skew_command(&source, &version, &vec![Architecture::I386], SuiteOrCodename::unstable(), 0)
        .unwrap()
        .unwrap();
    assert_eq!(
        c.to_string(),
        "nmu 2 foo_1.0-1 . i386 . unstable . -m \"Rebuild to sync binNMU versions\"\nbp 0 foo_1.0-1 . i386 . unstable"
    );
    let plain = PackageVersion::try_from("1.0-1").unwrap();
    assert!(version_skew_command(&source, &plain, &vec![Architecture::I386], SuiteOrCodename::unstable(), 0)
        .unwrap()
        .is_none());
    assert!(matches!(
        version_skew_command(&source, &version, &vec![Architecture::Source], SuiteOrCodename::unstable(), 0),
        Err(Error::InvalidArchitecture(WBArchitecture::Architecture(Architecture::Source), _))
    ));
}
