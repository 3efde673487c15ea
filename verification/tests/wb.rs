use drt_tools::architectures::Architecture;
use drt_tools::wb::{BinNMU, BuildPriority, DepWait, Error, SourceSpecifier, WBArchitecture, WBCommandBuilder};

#[test]
fn arch_from_str() {
    assert_eq!(WBArchitecture::try_from("ANY").unwrap(), WBArchitecture::Any);
    assert_eq!(WBArchitecture::try_from("ALL").unwrap(), WBArchitecture::All);
    assert_eq!(
        WBArchitecture::try_from("amd64").unwrap(),
        WBArchitecture::Architecture(Architecture::Amd64)
    );
    assert_eq!(
        WBArchitecture::try_from("-amd64").unwrap(),
        WBArchitecture::MinusArchitecture(Architecture::Amd64)
    );
    assert!(WBArchitecture::try_from("-ALL").is_err());
}

#[test]
fn binnmu() {
    assert_eq!(
        BinNMU::new(&SourceSpecifier::new("zathura"), "Rebuild on buildd")
            .unwrap()
            .build()
            .to_string(),
        "nmu zathura . ANY . unstable . -m \"Rebuild on buildd\""
    );
    assert_eq!(
        BinNMU::new(&SourceSpecifier::new("zathura"), "Rebuild on buildd")
            .unwrap()
            .with_nmu_version(3)
            .build()
            .to_string(),
        "nmu 3 zathura . ANY . unstable . -m \"Rebuild on buildd\""
    );
    assert_eq!(
        BinNMU::new(SourceSpecifier::new("zathura").with_version("2.3.4"), "Rebuild on buildd")
            .unwrap()
            .build()
            .to_string(),
        "nmu zathura_2.3.4 . ANY . unstable . -m \"Rebuild on buildd\""
    );
    assert_eq!(
        BinNMU::new(
            SourceSpecifier::new("zathura").with_architectures(&[
                WBArchitecture::Any,
                WBArchitecture::MinusArchitecture(Architecture::I386)
            ]),
            "Rebuild on buildd"
        )
        .unwrap()
        .build()
        .to_string(),
        "nmu zathura . ANY -i386 . unstable . -m \"Rebuild on buildd\""
    );
    assert_eq!(
        BinNMU::new(SourceSpecifier::new("zathura").with_suite("testing"), "Rebuild on buildd")
            .unwrap()
            .build()
            .to_string(),
        "nmu zathura . ANY . testing . -m \"Rebuild on buildd\""
    );
    assert_eq!(
        BinNMU::new(&SourceSpecifier::new("zathura"), "Rebuild on buildd")
            .unwrap()
            .with_extra_depends("libgirara-dev")
            .build()
            .to_string(),
        "nmu zathura . ANY . unstable . -m \"Rebuild on buildd\" --extra-depends \"libgirara-dev\""
    );
    assert_eq!(
        BinNMU::new(&SourceSpecifier::new("zathura"), "Rebuild on buildd")
            .unwrap()
            .with_dependency_wait("libgirara-dev")
            .build()
            .to_string(),
        "nmu zathura . ANY . unstable . -m \"Rebuild on buildd\"\ndw zathura . ANY . unstable . -m \"libgirara-dev\""
    );
    assert_eq!(
        BinNMU::new(&SourceSpecifier::new("zathura"), "Rebuild on buildd")
            .unwrap()
            .with_build_priority(-10)
            .build()
            .to_string(),
        "nmu zathura . ANY . unstable . -m \"Rebuild on buildd\"\nbp -10 zathura . ANY . unstable"
    );
}

#[test]
fn nmu_builder() {
    let source = SourceSpecifier::new("zathura");
    let mut builder = BinNMU::new(&source, "Rebuild on buildd").unwrap();
    builder.with_nmu_version(3);
    assert_eq!(
        builder.build().to_string(),
        "nmu 3 zathura . ANY . unstable . -m \"Rebuild on buildd\""
    );
}

#[test]
fn bp() {
    assert_eq!(
        BuildPriority::new(&SourceSpecifier::new("zathura"), 10)
            .unwrap()
            .build()
            .to_string(),
        "bp 10 zathura . ANY . unstable"
    );
    assert_eq!(
        BuildPriority::new(SourceSpecifier::new("zathura").with_version("2.3.4"), 10)
            .unwrap()
            .build()
            .to_string(),
        "bp 10 zathura_2.3.4 . ANY . unstable"
    );
    assert_eq!(
        BuildPriority::new(
            SourceSpecifier::new("zathura").with_architectures(&[
                WBArchitecture::Any,
                WBArchitecture::MinusArchitecture(Architecture::I386)
            ]),
            10
        )
        .unwrap()
        .build()
        .to_string(),
        "bp 10 zathura . ANY -i386 . unstable"
    );
    assert_eq!(
        BuildPriority::new(SourceSpecifier::new("zathura").with_suite("testing"), 10)
            .unwrap()
            .build()
            .to_string(),
        "bp 10 zathura . ANY . testing"
    );
}

#[test]
fn dw() {
    assert_eq!(
        DepWait::new(&SourceSpecifier::new("zathura"), "libgirara-dev")
            .unwrap()
            .build()
            .to_string(),
        "dw zathura . ANY . unstable . -m \"libgirara-dev\""
    );
    assert_eq!(
        DepWait::new(SourceSpecifier::new("zathura").with_version("2.3.4"), "libgirara-dev")
            .unwrap()
            .build()
            .to_string(),
        "dw zathura_2.3.4 . ANY . unstable . -m \"libgirara-dev\""
    );
    assert_eq!(
        DepWait::new(
            SourceSpecifier::new("zathura").with_architectures(&[
                WBArchitecture::Any,
                WBArchitecture::MinusArchitecture(Architecture::I386)
            ]),
            "libgirara-dev"
        )
        .unwrap()
        .build()
        .to_string(),
        "dw zathura . ANY -i386 . unstable . -m \"libgirara-dev\""
    );
    assert_eq!(
        DepWait::new(SourceSpecifier::new("zathura").with_suite("testing"), "libgirara-dev")
            .unwrap()
            .build()
            .to_string(),
        "dw zathura . ANY . testing . -m \"libgirara-dev\""
    );
}

#[test]
fn invalid_architectures_for_commands() {
    let mut source = SourceSpecifier::new("zathura");
    source.with_architectures(&[WBArchitecture::All]);
    assert!(matches!(
        BinNMU::new(&source, "Rebuild"),
        Err(Error::InvalidArchitecture(WBArchitecture::All, "nmu"))
    ));
    assert!(DepWait::new(&source, "libfoo").is_ok());
    let mut source = SourceSpecifier::new("zathura");
    source.with_archive_architectures(&[Architecture::Amd64, Architecture::Source]);
    assert!(matches!(
        BuildPriority::new(&source, 1),
        Err(Error::InvalidArchitecture(WBArchitecture::Architecture(Architecture::Source), "bp"))
    ));
    assert!(matches!(
        DepWait::new(&source, "libfoo"),
        Err(Error::InvalidArchitecture(WBArchitecture::Architecture(Architecture::Source), "dw"))
    ));
    assert_eq!(source.to_string(), "zathura . amd64 source . unstable");
}

#[test]
fn wb_architecture_roundtrip() {
    for a in [
        WBArchitecture::Any,
        WBArchitecture::All,
        WBArchitecture::Architecture(Architecture::Amd64),
        WBArchitecture::Architecture(Architecture::All),
        WBArchitecture::MinusArchitecture(Architecture::S390x),
        WBArchitecture::MinusArchitecture(Architecture::Source),
    ] {
        assert_eq!(WBArchitecture::try_from(a.to_string().as_str()).unwrap(), a);
    }
}
