use std::cmp::Ordering;
use std::hash::{Hash, Hasher};

use drt_tools::version::{compare_non_digits, compare_parts, PackageVersion, VersionError};
use drt_tools::ParseError;

#[test]
fn conversion() {
    let version = PackageVersion::try_from("2:1.0+dfsg-1").unwrap();
    assert_eq!(version.epoch(), Some(2));
    assert_eq!(version.upstream_version(), "1.0+dfsg");
    assert_eq!(version.debian_revision(), Some("1"));
}

#[test]
fn invalid_epoch() {
    assert!(PackageVersion::try_from("-1:1.0-1").is_err());
    assert!(PackageVersion::try_from(":1.0-1").is_err());
    assert!(PackageVersion::try_from("a1:1.0-1").is_err());
}

#[test]
fn invalid_upstream_version() {
    assert!(PackageVersion::try_from("-1").is_err());
    assert!(PackageVersion::try_from("0:-1").is_err());
    assert!(PackageVersion::new(None, "1:2", None).is_err());
    assert!(PackageVersion::new(None, "1-2", None).is_err());
}

#[test]
fn multi_dash() {
    let version = PackageVersion::try_from("1.0-2-1").unwrap();
    assert_eq!(version.epoch(), None);
    assert_eq!(version.upstream_version(), "1.0-2");
    assert_eq!(version.debian_revision().unwrap(), "1");
}

#[test]
fn multi_colon() {
    let version = PackageVersion::try_from("1:1.0:2-1").unwrap();
    assert_eq!(version.epoch().unwrap(), 1);
    assert_eq!(version.upstream_version(), "1.0:2");
    assert_eq!(version.debian_revision().unwrap(), "1");
}

#[test]
fn binnum() {
    let version = PackageVersion::try_from("1.0-1").unwrap();
    assert!(!version.has_binnmu_version());
    assert_eq!(version.binnmu_version(), None);

    let version = PackageVersion::try_from("1.0-1+b1").unwrap();
    assert!(version.has_binnmu_version());
    assert_eq!(version.binnmu_version(), Some(1u32));
}

#[test]
fn strip_binnum() {
    let version = PackageVersion::try_from("1.0-1+b1").unwrap();
    let version = version.without_binnmu_version();
    assert_eq!(version, PackageVersion::try_from("1.0-1").unwrap());

    assert!(!version.has_binnmu_version());
    assert_eq!(version.binnmu_version(), None);
}

#[test]
fn compare_non_digits_invariants() {
    assert_eq!(compare_non_digits("~~", "~~a"), Ordering::Less);
    assert_eq!(compare_non_digits("~~a", "~"), Ordering::Less);
    assert_eq!(compare_non_digits("~", ""), Ordering::Less);
    assert_eq!(compare_non_digits("", "a"), Ordering::Less);
}

#[test]
fn epoch_compare() {
    let version1 = PackageVersion::try_from("2.0-1").unwrap();
    let version2 = PackageVersion::try_from("2:1.0+dfsg-1").unwrap();

    assert!(version2.has_epoch());
    assert!(!version1.has_epoch());
    assert!(version1 < version2);
}

#[test]
fn zero_epoch_compare() {
    let version1 = PackageVersion::try_from("2.0-1").unwrap();
    let version2 = PackageVersion::try_from("0:2.0-1").unwrap();
    assert_eq!(version1, version2);
}

#[test]
fn equal_compare() {
    let version1 = PackageVersion::try_from("2.0-1").unwrap();
    assert_eq!(version1, version1);

    let version1 = PackageVersion::try_from("2a.0-1").unwrap();
    assert_eq!(version1, version1);

    let version1 = PackageVersion::try_from("2+dfsg1-1").unwrap();
    assert_eq!(version1, version1);
}

#[test]
fn tilde_plus_compare() {
    let version1 = PackageVersion::try_from("2.0~dfsg-1").unwrap();
    let version2 = PackageVersion::try_from("2.0-1").unwrap();
    assert!(version1 < version2);

    let version2 = PackageVersion::try_from("2.0+dfsg-1").unwrap();
    assert!(version1 < version2);

    let version1 = PackageVersion::try_from("2.0-1").unwrap();
    assert!(version1 < version2);

    let version1 = PackageVersion::try_from("2+dfsg1-1").unwrap();
    let version2 = PackageVersion::try_from("2+dfsg2-1").unwrap();
    assert!(version1 < version2);

    let version1 = PackageVersion::try_from("2+dfsg1-1").unwrap();
    let version2 = PackageVersion::try_from("2.1-1").unwrap();
    assert!(version1 < version2);
}

#[test]
fn letters_compare() {
    let version1 = PackageVersion::try_from("2dfsg-1").unwrap();
    let version2 = PackageVersion::try_from("2-1").unwrap();
    assert!(version1 > version2);
}

#[test]
fn less_compare() {
    let version1 = PackageVersion::try_from("2-1").unwrap();
    let version2 = PackageVersion::try_from("2.0-1").unwrap();
    assert!(version1 < version2);
}

#[test]
fn native_version_binnmu() {
    let version1 = PackageVersion::try_from("2+b1").unwrap();
    let version2 = PackageVersion::try_from("2").unwrap();
    assert!(version1.has_binnmu_version());
    assert_eq!(version1.binnmu_version(), Some(1));
    assert!(!version2.has_binnmu_version());
    assert_eq!(version1.without_binnmu_version(), version2);
}

// Further cases

#[test]
fn version_doc_example() {
    let ver1 = PackageVersion::new(None, "1.0", Some("2")).expect("Failed to construct version");
    assert_eq!(ver1.to_string(), "1.0-2");
    assert!(!ver1.has_epoch());
    assert!(!ver1.is_native());

    let ver2 = PackageVersion::new(Some(1), "0.2", Some("1.1")).expect("Failed to construct version");
    assert_eq!(ver2.to_string(), "1:0.2-1.1");
    assert!(ver2.has_epoch());
    assert!(!ver2.is_native());

    assert!(ver1 < ver2);
    assert_eq!(
        ver1,
        PackageVersion::new(Some(0), "1.0", Some("2")).expect("Failed to construct version")
    );
}

#[test]
fn version_text_roundtrip() {
    for text in ["1:2.3~rc1+dfsg-4+b2", "1.0", "0:1.0-1", "7:a.b.c-d-e"] {
        let v = PackageVersion::try_from(text).unwrap();
        let back = PackageVersion::try_from(v.to_string().as_str()).unwrap();
        assert_eq!(v.to_string(), back.to_string());
        assert_eq!(v.cmp(&back), Ordering::Equal);
    }
}

#[test]
fn version_order_laws_on_values() {
    let texts = ["1.0~rc1-1", "1.0-1", "1.0-1+b1", "1.0a-1", "1:0.1-1", "1.00-1", "1.0"];
    let versions: Vec<_> = texts.iter().map(|t| PackageVersion::try_from(*t).unwrap()).collect();
    for a in &versions {
        assert_eq!(a.cmp(a), Ordering::Equal);
        for b in &versions {
            assert_eq!(a.cmp(b), b.cmp(a).reverse());
            for c in &versions {
                if a <= b && b <= c {
                    assert!(a <= c);
                }
            }
        }
    }
    // leading zeros in numbers do not count
    assert_eq!(
        PackageVersion::try_from("1.00-1").unwrap(),
        PackageVersion::try_from("1.0-1").unwrap()
    );
}

#[test]
fn version_errors() {
    assert!(matches!(
        PackageVersion::try_from("x:1.0"),
        Err(ParseError::InvalidVersion(VersionError::InvalidEpoch))
    ));
    assert!(matches!(
        PackageVersion::try_from("1.0_1"),
        Err(ParseError::InvalidVersion(VersionError::InvalidUpstreamVersion))
    ));
    assert!(matches!(
        PackageVersion::try_from("1.0-1_2"),
        Err(ParseError::InvalidVersion(VersionError::InvalidDebianRevision))
    ));
    assert!(matches!(
        PackageVersion::new(None, "1.0", Some("")),
        Err(VersionError::InvalidDebianRevision)
    ));
    // an epoch may have a leading plus, as u32::from_str accepts one
    assert_eq!(PackageVersion::try_from("+3:1.0").unwrap().epoch(), Some(3));
    assert!(PackageVersion::try_from("4294967296:1.0").is_err());
}

#[test]
fn binnmu_edge_cases() {
    let v = PackageVersion::try_from("1.0-1+b1+b2").unwrap();
    assert_eq!(v.binnmu_version(), Some(2));
    let v = v.without_binnmu_version();
    assert_eq!(v.to_string(), "1.0-1+b1");
    let v = PackageVersion::try_from("1.0-1+bfoo").unwrap();
    assert_eq!(v.binnmu_version(), None);
    assert_eq!(v.clone_without_binnmu_version().to_string(), "1.0-1");
    assert_eq!(v.epoch_or_0(), 0);
}

#[test]
fn compare_parts_values() {
    assert_eq!(compare_parts("1.10", "1.9"), Ordering::Greater);
    assert_eq!(compare_parts("1.0~beta", "1.0"), Ordering::Less);
    assert_eq!(compare_parts("a", "1"), Ordering::Greater);
    assert_eq!(compare_parts("99999999999999999999", "0"), Ordering::Equal);
}

#[test]
fn binnmu_suffix_roundtrip() {
    for (text, with) in [("1.0-1", "1.0-1+b7"), ("2:1.0", "2:1.0+b7"), ("1.0+b1-2", "1.0+b1-2+b7")] {
        let v = PackageVersion::try_from(text).unwrap();
        let w = PackageVersion::try_from(with).unwrap();
        assert_eq!(w.binnmu_version(), Some(7));
        assert!(w.has_binnmu_version());
        let x = w.without_binnmu_version();
        assert_eq!(x.epoch(), v.epoch());
        assert_eq!(x.upstream_version(), v.upstream_version());
        assert_eq!(x.debian_revision(), v.debian_revision());
        assert_eq!(PackageVersion::try_from(v.to_string().as_str()).unwrap().upstream_version(), v.upstream_version());
    }
}

#[test]
fn non_letters_sort_before_letters() {
    assert_eq!(compare_non_digits("+", "a"), Ordering::Less);
    assert_eq!(compare_non_digits("²", "a"), Ordering::Less);
    assert_eq!(compare_non_digits("a", "²"), Ordering::Greater);
    assert_eq!(compare_non_digits("a", "b"), Ordering::Less);
    assert_eq!(compare_non_digits("é", "z"), Ordering::Greater);
    assert!(PackageVersion::try_from("1²").unwrap() < PackageVersion::try_from("1a").unwrap());
}

fn hash_of(v: &PackageVersion) -> u64 {
    let mut h = std::collections::hash_map::DefaultHasher::new();
    v.hash(&mut h);
    h.finish()
}

#[test]
fn version_hash() {
    let a = PackageVersion::try_from("1.0-1").unwrap();
    let b = PackageVersion::try_from("0:1.0-1").unwrap();
    let c = PackageVersion::try_from("1.0-2").unwrap();
    assert_eq!(hash_of(&a), hash_of(&b));
    assert_ne!(hash_of(&a), hash_of(&c));
    let mut expected = std::collections::hash_map::DefaultHasher::new();
    {
            0u32.hash(&mut expected);
        "1.0".to_string().hash(&mut expected);
        Some("1".to_string()).hash(&mut expected);
        assert_eq!(hash_of(&a), expected.finish());
    }
}
