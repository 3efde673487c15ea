use drt_tools::architectures::{Architecture, ArchitectureTuple};

#[test]
fn from_str() {
    assert_eq!(
        Architecture::try_from("amd64").unwrap(),
        Architecture::Amd64
    );
}

#[test]
fn matches_self() {
    assert!(Architecture::Amd64.matches_wildcard(Architecture::Amd64.into()));
}

#[test]
fn tuple_from_str() {
    assert_eq!(
        ArchitectureTuple::try_from("amd64").unwrap(),
        Architecture::Amd64.into()
    );
    assert_eq!(
        ArchitectureTuple::try_from("hurd-amd64").unwrap(),
        Architecture::HurdAmd64.into()
    );
    assert_ne!(
        ArchitectureTuple::try_from("any").unwrap(),
        Architecture::Amd64.into()
    );
    assert_eq!(
        ArchitectureTuple::try_from("any").unwrap(),
        ArchitectureTuple::try_from("any-any-any-any").unwrap(),
    );
    assert_eq!(
        ArchitectureTuple::try_from("any").unwrap(),
        ArchitectureTuple::try_from("any-any-any").unwrap(),
    );
    assert_eq!(
        ArchitectureTuple::try_from("any").unwrap(),
        ArchitectureTuple::try_from("any-any").unwrap(),
    );
    assert_eq!(
        ArchitectureTuple::try_from("linux-any").unwrap(),
        ArchitectureTuple::try_from("any-any-linux-any").unwrap(),
    );
    assert_eq!(
        ArchitectureTuple::try_from("gnu-any-any").unwrap(),
        ArchitectureTuple::try_from("any-gnu-any-any").unwrap(),
    );

    let any_amd64 = ArchitectureTuple::try_from("any-amd64").unwrap();
    let linux_any = ArchitectureTuple::try_from("linux-any").unwrap();
    assert!(Architecture::Amd64.matches_wildcard(any_amd64));
    assert!(Architecture::Amd64.matches_wildcard(linux_any));
}

#[test]
fn architecture_text_roundtrip() {
    for name in ["all", "amd64", "arm64", "hurd-i386", "ppc64el", "source", "x32"] {
        let arch = Architecture::try_from(name).unwrap();
        assert_eq!(arch.as_str(), name);
    }
    assert!(Architecture::try_from("amd65").is_err());
    assert!(Architecture::try_from("").is_err());
}

#[test]
fn tuple_text() {
    let tuple: ArchitectureTuple = Architecture::Amd64.into();
    assert_eq!(tuple.to_string(), "base-gnu-linux-amd64");
    assert_eq!(
        ArchitectureTuple::try_from("linux-any").unwrap().to_string(),
        "any-any-linux-any"
    );
    assert!(ArchitectureTuple::try_from("foo-bar").is_err());
}

#[test]
fn wildcard_containment() {
    let any = ArchitectureTuple::try_from("any").unwrap();
    let linux_any = ArchitectureTuple::try_from("linux-any").unwrap();
    let amd64: ArchitectureTuple = Architecture::Amd64.into();
    let hurd: ArchitectureTuple = Architecture::HurdAmd64.into();
    assert!(any.contains(linux_any));
    assert!(linux_any.contains(amd64));
    assert!(any.contains(amd64));
    assert!(!linux_any.contains(any));
    assert!(!linux_any.contains(hurd));
    assert!(!Architecture::HurdAmd64.matches_wildcard(linux_any));
}

#[test]
fn tuples_of_sh4_and_mipsel() {
    let sh4: ArchitectureTuple = Architecture::Sh4.into();
    assert_eq!(sh4.to_string(), "base-gnu-linux-s390x");
    let mipsel: ArchitectureTuple = Architecture::Mipsel.into();
    assert_eq!(mipsel.to_string(), "abin32-gnu-linux-mips64el");
}
