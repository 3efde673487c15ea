use drt_tools::package::PackageName;
use drt_tools::udd_bugs::{parse_source_list, Severity, UDDBug, UDDBugs};

fn bug(id: u32, sources: &str, severity: Severity) -> UDDBug {
    UDDBug {
        id,
        source: parse_source_list(sources).unwrap(),
        severity,
        title: format!("bug {id}"),
    }
}

#[test]
fn bugs_by_source() {
    let bugs = UDDBugs::new(vec![
        bug(743062, "mutextrace", Severity::Serious),
        bug(1, "dmtcp", Severity::Grave),
        bug(1114387, "pmix,slurm-wlm", Severity::Serious),
        bug(2, "mutextrace", Severity::Critical),
    ]);
    assert!(bugs.bugs_for_source("dmtcp").is_some());
    assert!(bugs.bugs_for_source("zathura").is_none());
    let m = bugs.bugs_for_source("mutextrace").unwrap();
    assert_eq!(m.len(), 2);
    assert_eq!(m[0].id, 743062);
    assert_eq!(m[1].id, 2);
    for bug in m {
        assert!(bug.severity >= Severity::Serious);
        assert!(bug.severity.is_rc());
    }
    assert_eq!(bugs.bugs_for_source("slurm-wlm").unwrap()[0].id, 1114387);
    assert!(UDDBugs::default().bugs_for_source("dmtcp").is_none());
}

#[test]
fn severities() {
    assert_eq!(Severity::Wishlist.as_str(), "wishlist");
    assert_eq!(Severity::Critical.as_str(), "critical");
    assert!(!Severity::Important.is_rc());
    assert!(Severity::Serious.is_rc());
    assert!(Severity::Normal < Severity::Important);
    assert!(Severity::Wishlist.rank() < Severity::Grave.rank());
}

#[test]
fn source_lists() {
    let l = parse_source_list("pmix,slurm-wlm").unwrap();
    assert_eq!(l.len(), 2);
    assert_eq!(l[0], PackageName::try_from("pmix").unwrap());
    assert_eq!(l[1].as_str(), "slurm-wlm");
    assert!(parse_source_list("pmix,,slurm").is_err());
    assert!(parse_source_list("").is_err());
}
