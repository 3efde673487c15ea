use drt_tools::archive::MultiArch;
use drt_tools::package::PackageName;
use drt_tools::source_packages::{BinaryPackage, SourcePackage, SourcePackages, SourceWithVersion};
use drt_tools::version::PackageVersion;

fn binary(p: &str, v: &str, source: Option<&str>, ma: Option<MultiArch>) -> BinaryPackage {
    BinaryPackage {
        source: source.map(|s| SourceWithVersion::parse(s).unwrap()),
        package: PackageName::try_from(p).unwrap(),
        version: PackageVersion::try_from(v).unwrap(),
        multi_arch: ma,
    }
}

#[test]
fn source_with_version() {
    let s = SourceWithVersion::parse("zathura (1.0-1)").unwrap();
    assert_eq!(s.source.as_str(), "zathura");
    assert_eq!(s.version.as_ref().unwrap().to_string(), "1.0-1");
    assert_eq!(s.to_string(), "zathura (1.0-1)");
    let s = SourceWithVersion::parse("zathura").unwrap();
    assert!(s.version.is_none());
    assert_eq!(s.to_string(), "zathura");
    assert!(SourceWithVersion::parse("zathura 1.0-1").is_none());
    assert!(SourceWithVersion::parse("zathura (a:1)").is_none());
    assert!(SourceWithVersion::parse("Zathura").is_none());
    assert!(SourceWithVersion::parse("").is_none());
}

#[test]
fn binary_source_and_version() {
    let b = binary("libfoo1", "1.0-1+b2", Some("foo"), None);
    let (n, v) = b.name_and_version();
    assert_eq!(n.as_str(), "foo");
    assert_eq!(v.to_string(), "1.0-1");
    let b = binary("libfoo1", "1.0-1+b2", Some("foo (0.9-3)"), Some(MultiArch::Same));
    let sp = b.source_package();
    assert_eq!(sp.package.as_str(), "foo");
    assert_eq!(sp.version.to_string(), "0.9-3");
    assert!(b.is_ma_same());
    let b = binary("foo", "2-1+b1", None, Some(MultiArch::Foreign));
    let (n, v) = b.name_and_version();
    assert_eq!(n.as_str(), "foo");
    assert_eq!(v.to_string(), "2-1");
    assert!(!b.is_ma_same());
}

#[test]
fn source_packages_from_binaries() {
    let sources = SourcePackages::new(&[
        binary("libfoo1", "1.0-1", Some("foo"), Some(MultiArch::Same)),
        binary("foo-bin", "1.0-2", Some("foo"), None),
        binary("foo-doc", "0.9-1", Some("foo"), None),
        binary("bar", "3-1", None, None),
    ]);
    assert!(sources.is_ma_same("foo"));
    assert!(!sources.is_ma_same("bar"));
    assert!(!sources.is_ma_same("baz"));
    assert_eq!(sources.version("foo").unwrap().to_string(), "1.0-2");
    assert_eq!(sources.version("bar").unwrap().to_string(), "3-1");
    assert!(sources.version("baz").is_none());
}

#[test]
fn source_packages_with_sources() {
    let sources = SourcePackages::new_with_source(
        &[
            SourcePackage {
                package: PackageName::try_from("foo").unwrap(),
                version: PackageVersion::try_from("2.0-1").unwrap(),
                extra_source_only: false,
            },
            SourcePackage {
                package: PackageName::try_from("baz").unwrap(),
                version: PackageVersion::try_from("1").unwrap(),
                extra_source_only: false,
            },
        ],
        &[binary("libfoo1", "1.0-1", Some("foo"), Some(MultiArch::Same))],
    );
    assert_eq!(sources.version("foo").unwrap().to_string(), "2.0-1");
    assert!(sources.is_ma_same("foo"));
    assert!(!sources.is_ma_same("baz"));
    assert_eq!(sources.version("baz").unwrap().to_string(), "1");
}

#[test]
fn source_with_version_roundtrip() {
    for text in ["zathura (1.0-1)", "libfoo++ (2:1.0~rc1+dfsg-3+b1)", "zathura"] {
        assert_eq!(SourceWithVersion::parse(text).unwrap().to_string(), text);
    }
}
