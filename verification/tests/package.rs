use drt_tools::architectures::Architecture;
use drt_tools::package::{
    ArchitectureRestriction, PackageError, PackageName, PackageRelationship, Relationship,
    VersionRelationship, VersionedPackage,
};
use drt_tools::version::PackageVersion;
use drt_tools::ParseError;

#[test]
fn valid_package_names() {
    assert!(PackageName::try_from("zathura").is_ok());
    assert!(PackageName::try_from("0ad").is_ok());
    assert!(PackageName::try_from("zathura-pdf").is_ok());
}

#[test]
fn invalid_package_names() {
    assert!(PackageName::try_from("z").is_err());
    assert!(PackageName::try_from("-ad").is_err());
}

#[test]
fn architecture_restriction() {
    let ar = ArchitectureRestriction::try_from("any-amd64").unwrap();
    assert!(ar.satisfied_by(Architecture::Amd64));
    assert!(ar.satisfied_by(Architecture::HurdAmd64));
    assert!(!ar.satisfied_by(Architecture::I386));
    assert!(ar.satisfied_by(Architecture::X32));
    assert!(!ar.satisfied_by(Architecture::HurdI386));

    let ar = ArchitectureRestriction::try_from("any-amd64 !x32").unwrap();
    assert!(ar.satisfied_by(Architecture::Amd64));
    assert!(ar.satisfied_by(Architecture::HurdAmd64));
    assert!(!ar.satisfied_by(Architecture::I386));
    assert!(!ar.satisfied_by(Architecture::X32));
    assert!(!ar.satisfied_by(Architecture::HurdI386));

    let ar = ArchitectureRestriction::try_from("!x32").unwrap();
    assert!(ar.satisfied_by(Architecture::Amd64));
    assert!(ar.satisfied_by(Architecture::HurdAmd64));
    assert!(ar.satisfied_by(Architecture::I386));
    assert!(!ar.satisfied_by(Architecture::X32));
    assert!(ar.satisfied_by(Architecture::HurdI386));
}

#[test]
fn package_relationship() {
    let package_relationship = PackageRelationship::try_from("zathura (>= 1.0~) [amd64]").unwrap();
    assert_eq!(package_relationship.package.as_str(), "zathura");
    assert_eq!(
        package_relationship.version_relation,
        Some(VersionRelationship {
            version: PackageVersion::try_from("1.0~").unwrap(),
            relation: Relationship::GreaterEqual
        })
    );

    let package_relationship = PackageRelationship::try_from("zathura(>= 1.0~)[amd64]").unwrap();
    assert_eq!(package_relationship.package.as_str(), "zathura");
    assert_eq!(
        package_relationship.version_relation,
        Some(VersionRelationship {
            version: PackageVersion::try_from("1.0~").unwrap(),
            relation: Relationship::GreaterEqual
        })
    );

    let package_relationship =
        PackageRelationship::try_from("zathura (>= 1.0~) [amd64] <!nocheck>").unwrap();
    assert_eq!(package_relationship.package.as_str(), "zathura");
    assert_eq!(
        package_relationship.version_relation,
        Some(VersionRelationship {
            version: PackageVersion::try_from("1.0~").unwrap(),
            relation: Relationship::GreaterEqual
        })
    );

    let package_relationship =
        PackageRelationship::try_from("zathura (>= 1.0~) [amd64] <!nocheck> <!pkg.foo.1 pkg.foo2>")
            .unwrap();
    assert_eq!(package_relationship.package.as_str(), "zathura");
    assert_eq!(
        package_relationship.version_relation,
        Some(VersionRelationship {
            version: PackageVersion::try_from("1.0~").unwrap(),
            relation: Relationship::GreaterEqual
        })
    );
}

#[test]
fn package_name_errors() {
    assert_eq!(PackageName::try_from("").unwrap_err(), PackageError::InvalidNameLength);
    assert_eq!(PackageName::try_from("z").unwrap_err(), PackageError::InvalidNameLength);
    assert_eq!(PackageName::try_from("Zathura").unwrap_err(), PackageError::InvalidName);
    assert_eq!(PackageName::try_from("zat hura").unwrap_err(), PackageError::InvalidName);
    assert_eq!(PackageName::try_from("libc++").unwrap().as_str(), "libc++");
}

#[test]
fn relationship_errors_and_text() {
    assert_eq!(
        PackageRelationship::try_from("zathura (>= 1.0~").unwrap_err(),
        ParseError::InvalidRelationship
    );
    assert!(PackageRelationship::try_from("Zathura").is_err());
    let r = PackageRelationship::try_from("zathura (>= 1.0~) [amd64]").unwrap();
    assert_eq!(r.to_string(), "zathura (>= 1.0~)");
    let r = PackageRelationship::try_from("zathura").unwrap();
    assert_eq!(r.to_string(), "zathura");
    assert!(r.version_relation.is_none());
    assert!(VersionRelationship::try_from(">> 2").is_ok());
    assert!(VersionRelationship::try_from("=> 2").is_err());
}

#[test]
fn versioned_package_order() {
    let a = VersionedPackage {
        package: PackageName::try_from("zathura").unwrap(),
        version: PackageVersion::try_from("1.0-1").unwrap(),
    };
    let b = VersionedPackage {
        package: PackageName::try_from("zathura").unwrap(),
        version: PackageVersion::try_from("1.0-2").unwrap(),
    };
    let c = VersionedPackage {
        package: PackageName::try_from("apt").unwrap(),
        version: PackageVersion::try_from("9.0").unwrap(),
    };
    assert_eq!(a.order(&b), -1);
    assert_eq!(b.order(&a), 1);
    assert_eq!(c.order(&a), -1);
    assert_eq!(a.order(&a.duplicate()), 0);
}
