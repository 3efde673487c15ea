use drt_tools::archive::{Codename, Component, Extension, MultiArch, Suite, SuiteOrCodename};

#[test]
fn suite_from_str() {
    assert_eq!(Suite::try_from("unstable").unwrap(), Suite::Unstable);
    assert_eq!(Suite::try_from("stable").unwrap(), Suite::Stable(None));
    assert_eq!(
        Suite::try_from("stable-backports").unwrap(),
        Suite::Stable(Some(Extension::Backports))
    );
}

#[test]
fn codename_from_str() {
    assert_eq!(Codename::try_from("sid").unwrap(), Codename::Sid);
    assert_eq!(
        Codename::try_from("bullseye").unwrap(),
        Codename::Bullseye(None)
    );
    assert_eq!(
        Codename::try_from("bullseye-backports").unwrap(),
        Codename::Bullseye(Some(Extension::Backports))
    );
}

#[test]
fn codename_from_suite() {
    assert_eq!(Codename::from(Suite::Unstable), Codename::Sid);
    assert_eq!(
        Codename::from(Suite::Stable(Some(Extension::Backports))),
        Codename::Bookworm(Some(Extension::Backports))
    );
}

#[test]
fn suite_from_codename() {
    assert_eq!(Suite::from(Codename::Sid), Suite::Unstable);
    assert_eq!(
        Suite::from(Codename::Bookworm(Some(Extension::Backports))),
        Suite::Stable(Some(Extension::Backports))
    );
}

#[test]
fn suite_or_codename_from_str() {
    assert_eq!(
        SuiteOrCodename::try_from("unstable").unwrap(),
        SuiteOrCodename::from(Suite::Unstable)
    );
    assert_eq!(
        SuiteOrCodename::try_from("sid").unwrap(),
        SuiteOrCodename::from(Codename::Sid)
    );
}

#[test]
fn multi_arch_from_str() {
    assert_eq!(MultiArch::try_from("foreign").unwrap(), MultiArch::Foreign);
}

#[test]
fn compoment_from_str() {
    assert_eq!(Component::try_from("main").unwrap(), Component::Main);
}

#[test]
fn suite_text_and_extensions() {
    assert_eq!(Suite::Stable(Some(Extension::ProposedUpdates)).to_string(), "stable-proposed-updates");
    assert_eq!(Suite::Testing(None).with_extension(Extension::Backports), Suite::Testing(Some(Extension::Backports)));
    assert_eq!(Suite::Unstable.with_extension(Extension::Backports), Suite::Unstable);
    assert_eq!(Suite::Stable(Some(Extension::Backports)).without_extension(), Suite::Stable(None));
    assert_eq!(SuiteOrCodename::stable_pu().to_string(), "stable-proposed-updates");
    assert_eq!(SuiteOrCodename::unstable(), SuiteOrCodename::Suite(Suite::Unstable));
    assert_eq!(Codename::from(SuiteOrCodename::testing()), Codename::Trixie(None));
}

#[test]
fn invalid_archive_names() {
    assert!(Suite::try_from("sid").is_err());
    assert!(Suite::try_from("stable-foo").is_err());
    assert!(Codename::try_from("unstable").is_err());
    assert!(SuiteOrCodename::try_from("foo").is_err());
    assert!(MultiArch::try_from("maybe").is_err());
    assert!(Component::try_from("free").is_err());
}

#[test]
fn suite_codename_roundtrip() {
    for suite in [
        Suite::Unstable,
        Suite::Testing(None),
        Suite::Stable(Some(Extension::Backports)),
        Suite::OldStable(Some(Extension::ProposedUpdates)),
        Suite::Experimental,
    ] {
        assert_eq!(Suite::from(Codename::from(suite)), suite);
        assert_eq!(Suite::try_from(suite.to_string().as_str()).unwrap(), suite);
    }
}
