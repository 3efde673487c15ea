use drt_tools::architectures::Architecture;
use drt_tools::archive::{Component, MultiArch};
use drt_tools::cli::ProcessExcusesOptions;
use drt_tools::excuses::{
    AgeInfo, BuiltOnBuildd, ExcusesItem, MissingBuilds, PolicyInfo, UnspecfiedPolicyInfo, Verdict,
};
use drt_tools::package::PackageName;
use drt_tools::process_excuses::{Action, ProcessExcuses, ScheduledBinNMUs};
use drt_tools::process_unblocks::ProcessUnblocks;
use drt_tools::source_packages::{BinaryPackage, SourcePackages};
use drt_tools::version::PackageVersion;
use drt_tools::wb::WBCommand;

fn version(v: &str) -> PackageVersion {
    PackageVersion::try_from(v).unwrap()
}

fn policy(signed_by: Vec<(Architecture, Option<String>)>, verdict: Verdict) -> PolicyInfo {
    PolicyInfo {
        age: Some(AgeInfo { age_requirement: 5, current_age: 5, verdict: Verdict::Pass }),
        builtonbuildd: Some(BuiltOnBuildd { signed_by, verdict }),
        autopkgtest: Some(UnspecfiedPolicyInfo { verdict: Verdict::Pass }),
        extras: vec![],
    }
}

fn item(name: &str, source: &str, new: Option<&str>, old: Option<&str>, policy_info: Option<PolicyInfo>) -> ExcusesItem {
    ExcusesItem {
        maintainer: Some("Someone <someone@debian.org>".to_string()),
        is_candidate: false,
        new_version: new.map(version),
        old_version: old.map(version),
        item_name: name.to_string(),
        source: PackageName::try_from(source).unwrap(),
        invalidated_by_other_package: None,
        component: None,
        missing_builds: None,
        policy_info,
        excuses: vec![],
        migration_policy_verdict: Verdict::RejectedPermanently,
    }
}

fn maintainer_built() -> PolicyInfo {
    policy(
        vec![
            (Architecture::Amd64, Some("maintainer@example.org".to_string())),
            (Architecture::Arm64, Some("buildd_arm64-x@buildd.debian.org".to_string())),
            (Architecture::I386, Some("maintainer@example.org".to_string())),
        ],
        Verdict::RejectedPermanently,
    )
}

fn options() -> ProcessExcusesOptions {
    ProcessExcusesOptions { ignore_age: false, ignore_autopkgtests: false }
}

#[test]
fn item_kinds() {
    let removal = item("-zathura", "zathura", None, Some("1-1"), None);
    assert!(removal.is_removal());
    let binnmu = item("zathura/amd64", "zathura", Some("1-1"), Some("1-1"), None);
    assert!(binnmu.is_binnmu());
    assert_eq!(binnmu.binnmu_arch(), Some(Architecture::Amd64));
    let binnmu = item("zathura/i386_tpu", "zathura", Some("1-1"), Some("1-1"), None);
    assert_eq!(binnmu.binnmu_arch(), Some(Architecture::I386));
    assert!(binnmu.is_from_tpu());
    assert!(!binnmu.is_from_pu());
    let upload = item("zathura_pu", "zathura", Some("1-2"), Some("1-1"), None);
    assert!(!upload.is_binnmu());
    assert!(upload.is_from_pu());
    assert_eq!(upload.binnmu_arch(), None);
}

#[test]
fn binnmu_required() {
    let p = ProcessExcuses::new(options());
    assert!(p.is_binnmu_required(&maintainer_built()));
    assert!(!p.is_binnmu_required(&policy(vec![], Verdict::Pass)));
    assert!(!p.is_binnmu_required(&policy(vec![], Verdict::RejectedCannotDetermineIfPermanent)));
    let mut young = maintainer_built();
    young.age = Some(AgeInfo { age_requirement: 10, current_age: 2, verdict: Verdict::RejectedTemporarily });
    assert!(!p.is_binnmu_required(&young));
    assert!(ProcessExcuses::new(ProcessExcusesOptions { ignore_age: true, ignore_autopkgtests: false })
        .is_binnmu_required(&young));
    let mut failing = maintainer_built();
    failing.autopkgtest = Some(UnspecfiedPolicyInfo { verdict: Verdict::RejectedPermanently });
    assert!(!p.is_binnmu_required(&failing));
    assert!(ProcessExcuses::new(ProcessExcusesOptions { ignore_age: false, ignore_autopkgtests: true })
        .is_binnmu_required(&failing));
    // a required age of 0 leaves nothing too young
    let mut no_age = maintainer_built();
    no_age.age = Some(AgeInfo { age_requirement: 0, current_age: 0, verdict: Verdict::Pass });
    assert!(p.is_binnmu_required(&no_age));
    let mut other = maintainer_built();
    other.extras = vec![("piuparts".to_string(), UnspecfiedPolicyInfo { verdict: Verdict::RejectedPermanently })];
    assert!(!p.is_binnmu_required(&other));
}

#[test]
fn build_binnmus() {
    let p = ProcessExcuses::new(options());
    let sources = SourcePackages::new(&[]);
    let it = item("zathura", "zathura", Some("1.0-2"), Some("1.0-1"), Some(maintainer_built()));
    assert_eq!(
        p.build_binnmu(&it, &sources).unwrap().to_string(),
        "nmu zathura_1.0-2 . amd64 i386 . unstable . -m \"Rebuild on buildd\""
    );
    let ma_same = SourcePackages::new(&[BinaryPackage {
        source: None,
        package: PackageName::try_from("zathura").unwrap(),
        version: version("1.0-2"),
        multi_arch: Some(MultiArch::Same),
    }]);
    assert_eq!(
        p.build_binnmu(&it, &ma_same).unwrap().to_string(),
        "nmu zathura_1.0-2 . ANY . unstable . -m \"Rebuild on buildd\""
    );
    let all = item(
        "zathura",
        "zathura",
        Some("1.0-2"),
        None,
        Some(policy(vec![(Architecture::All, Some("me@example.org".to_string()))], Verdict::RejectedPermanently)),
    );
    assert!(p.build_binnmu(&all, &sources).is_none());
    match p.build_action(&it, &sources) {
        Some(Action::BinNMU(c)) => assert!(c.as_str().starts_with("nmu zathura_1.0-2")),
        _ => panic!("expected a binNMU"),
    }
}

#[test]
fn defined_actions() {
    let p = ProcessExcuses::new(options());
    let it = item("zathura", "zathura", Some("1.0-2"), Some("1.0-1"), Some(maintainer_built()));
    assert!(p.is_action_defined(&it));
    let mut bad = item("zathura/sparc99", "zathura", Some("1.0-2"), Some("1.0-2"), None);
    bad.migration_policy_verdict = Verdict::RejectedNeedsApproval;
    assert!(p.is_action_defined(&bad));
    assert_eq!(bad.binnmu_arch(), None);
    assert!(ProcessExcuses::build_unblock(&bad).is_none());
    let mut no_buildd = maintainer_built();
    no_buildd.builtonbuildd = None;
    let missing = item("zathura", "zathura", Some("1.0-2"), Some("1.0-1"), Some(no_buildd));
    assert!(!p.is_action_defined(&missing));
}

#[test]
fn unblocks() {
    let mut tpu = item("zathura_tpu", "zathura", Some("1.0-2"), Some("1.0-1"), None);
    assert_eq!(ProcessExcuses::build_unblock(&tpu).unwrap(), "unblock zathura_tpu/1.0-2");
    tpu.migration_policy_verdict = Verdict::RejectedNeedsApproval;
    assert!(ProcessExcuses::is_actionable(&tpu));
    assert!(ProcessExcuses::is_unblock_actionable(&tpu));
    assert!(!ProcessExcuses::is_binnmu_actionable(&tpu));
    let binnmu = item("zathura/amd64", "zathura", Some("1.0-2"), Some("1.0-2"), None);
    assert_eq!(ProcessExcuses::build_unblock(&binnmu).unwrap(), "unblock zathura/1.0-2/amd64");
    let removal = item("-zathura", "zathura", None, Some("1.0-2"), None);
    assert!(ProcessExcuses::build_unblock(&removal).is_none());
    assert!(!ProcessExcuses::is_actionable(&removal));

    let u = ProcessUnblocks::new();
    assert_eq!(ProcessUnblocks::build_unblock(&tpu).unwrap(), "unblock zathura_tpu/1.0-2");
    let _ = u;
    let mut binnmu_item = item("zathura/i386", "zathura", Some("1.0-2"), Some("1.0-2"), None);
    binnmu_item.migration_policy_verdict = Verdict::RejectedNeedsApproval;
    let plain = item("girara", "girara", Some("1-1"), Some("1-0"), None);
    let mut unknown_arch = item("zathura/sparc99", "zathura", Some("1.0-2"), Some("1.0-2"), None);
    unknown_arch.migration_policy_verdict = Verdict::RejectedNeedsApproval;
    assert!(ProcessUnblocks::build_unblock(&unknown_arch).is_none());
    assert_eq!(
        ProcessUnblocks::unblocks(&[tpu, plain, unknown_arch, binnmu_item]),
        vec!["unblock zathura_tpu/1.0-2".to_string(), "unblock zathura/1.0-2/i386".to_string()]
    );
}

#[test]
fn not_actionable() {
    let mut it = item("zathura", "zathura", Some("1.0-2"), Some("1.0-1"), Some(maintainer_built()));
    it.invalidated_by_other_package = Some(true);
    assert!(!ProcessExcuses::is_actionable(&it));
    it.invalidated_by_other_package = Some(false);
    assert!(ProcessExcuses::is_actionable(&it));
    it.component = Some(Component::Contrib);
    assert!(!ProcessExcuses::is_binnmu_actionable(&it));
    it.component = Some(Component::Main);
    assert!(ProcessExcuses::is_binnmu_actionable(&it));
    it.missing_builds = Some(MissingBuilds { on_architectures: vec![Architecture::Amd64] });
    assert!(!ProcessExcuses::is_binnmu_actionable(&it));
}

#[test]
fn processing_schedules_once() {
    let p = ProcessExcuses::new(options());
    let sources = SourcePackages::new(&[]);
    let mut tpu = item("zathura_tpu", "zathura", Some("1.0-2"), Some("1.0-1"), None);
    tpu.migration_policy_verdict = Verdict::RejectedNeedsApproval;
    let mut tpu2 = item("zathura_tpu", "zathura", Some("1.0-2"), Some("1.0-1"), None);
    tpu2.migration_policy_verdict = Verdict::RejectedNeedsApproval;
    let items = vec![
        item("girara", "girara", Some("1-1"), None, Some(maintainer_built())),
        tpu,
        item("girara", "girara", Some("1-1"), None, Some(maintainer_built())),
        tpu2,
        item("mupdf", "mupdf", Some("2-1"), None, Some(maintainer_built())),
    ];
    let mut scheduled = ScheduledBinNMUs { binnmus: vec![] };
    scheduled.store(&WBCommand::from_text(
        "nmu mupdf_2-1 . amd64 i386 . unstable . -m \"Rebuild on buildd\"".to_string(),
    ));
    let (unblocks, binnmus) = p.process(&items, &sources, &mut scheduled, false);
    assert_eq!(unblocks, vec!["unblock zathura_tpu/1.0-2".to_string()]);
    assert_eq!(binnmus.len(), 1);
    assert_eq!(
        binnmus[0].to_string(),
        "nmu girara_1-1 . amd64 i386 . unstable . -m \"Rebuild on buildd\""
    );
    assert_eq!(scheduled.binnmus.len(), 2);
    assert!(scheduled.contains(&binnmus[0]));

    // a second run schedules nothing new
    let (_, again) = p.process(&items, &sources, &mut scheduled, false);
    assert!(again.is_empty());

    // a dry run leaves the scheduled rebuilds alone
    let mut fresh = ScheduledBinNMUs { binnmus: vec![] };
    let (_, dry) = p.process(&items, &sources, &mut fresh, true);
    assert_eq!(dry.len(), 2);
    assert!(fresh.binnmus.is_empty());
}
