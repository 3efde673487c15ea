use drt_tools::architectures::Architecture;
use drt_tools::buildinfo::{parse_architecture_list, parse_component_list};
use drt_tools::archive::{Codename, Component, Suite, SuiteOrCodename};
use drt_tools::cli::{DrtToolsCommands, NMUOutdatedBuiltUsingOptions, NMUVersionSkewOptions, ProcessExcusesOptions};
use drt_tools::config::{has_work, ArchiveReleases, CacheEntries, CacheState, Compressor};
use drt_tools::release::{parse_sha256, Release};

const HASH: &str = "8b2a1969501be49fe11e8e8005bf9a3aac0e073d4c7fd97dcb8bfb6f8c9a222a";

fn release(suite: Suite, codename: Codename, archs: Vec<Architecture>, files: &[&str]) -> Release {
    let listing: String = files.iter().map(|f| format!("{HASH} 1 {f}\n")).collect();
    Release {
        origin: "Debian".to_string(),
        label: "Debian".to_string(),
        suite,
        codename,
        version: None,
        date: 0,
        valid_until: None,
        acquire_by_hash: Some(true),
        architectures: archs,
        components: vec![Component::Main],
        description: String::new(),
        files: parse_sha256(&listing).unwrap(),
    }
}

fn releases() -> ArchiveReleases {
    let unstable_files = [
        "main/binary-all/Packages.xz",
        "main/binary-amd64/Packages.xz",
        "main/source/Sources.xz",
    ];
    let empty = || release(Suite::Stable(None), Codename::Bookworm(None), vec![], &[]);
    ArchiveReleases {
        archive_mirror: "https://deb.debian.org/debian".to_string(),
        unstable: release(Suite::Unstable, Codename::Sid, vec![Architecture::All, Architecture::Amd64], &unstable_files),
        testing: release(Suite::Testing(None), Codename::Trixie(None), vec![Architecture::Arm64], &[]),
        stable: empty(),
        oldstable: empty(),
        experimental: empty(),
        stable_proposed_updates: empty(),
        oldstable_proposed_updates: empty(),
        stable_backports: empty(),
    }
}

#[test]
fn release_lookup() {
    let r = releases();
    assert!(r.unstable.lists("main/source/Sources.xz"));
    assert!(!r.unstable.lists("main/source/Sources.gz"));
    assert_eq!(r.unstable.lookup_url("main/source/Sources.xz"), Some("main/source/Sources.xz".to_string()));
    assert_eq!(r.unstable.lookup_url("nothing"), None);
    assert!(r.is_available(Suite::Unstable, "main/binary-amd64/Packages.xz"));
    assert!(!r.is_available(Suite::Testing(None), "main/binary-amd64/Packages.xz"));
    assert!(!r.is_available(Suite::OldStable(Some(drt_tools::archive::Extension::Backports)), "x"));
    assert_eq!(
        r.lookup_url(Suite::Unstable, "main/source/Sources.xz"),
        "https://deb.debian.org/debian/dists/unstable/main/source/Sources.xz"
    );
    assert_eq!(r.architectures_for_suite(Suite::Experimental), vec![Architecture::All, Architecture::Amd64]);
    assert_eq!(r.architectures_for_suite(Suite::Testing(None)), vec![Architecture::Arm64]);
    assert!(r.architectures_for_suite(Suite::OldStable(None)).is_empty());
}

#[test]
fn cache_downloads() {
    let r = releases();
    let p = r.packages_urls(Suite::Unstable);
    assert_eq!(p.len(), 2);
    assert_eq!(p[0].url, "https://deb.debian.org/debian/dists/unstable/main/binary-all/Packages.xz");
    assert_eq!(p[0].destination, "Packages_unstable_all");
    assert_eq!(p[1].destination, "Packages_unstable_amd64");
    assert_eq!(p[1].compressor, Compressor::Xz);
    let s = r.source_urls(Suite::Unstable);
    assert_eq!(s[0].destination, "Sources_unstable");
    let all = r.cache_entries_to_urls_dests(&[
        CacheEntries::Excuses,
        CacheEntries::Packages(SuiteOrCodename::unstable()),
        CacheEntries::Release(SuiteOrCodename::testing()),
        CacheEntries::FTBFSBugs(SuiteOrCodename::unstable()),
        CacheEntries::Sources(SuiteOrCodename::unstable()),
        CacheEntries::AutoRemovals,
    ]);
    let dests: Vec<&str> = all.iter().map(|d| d.destination.as_str()).collect();
    assert_eq!(
        dests,
        vec![
            "excuses.yaml",
            "Packages_unstable_all",
            "Packages_unstable_amd64",
            "Release_testing",
            "udd-ftbfs-bugs-sid.yaml",
            "Sources_unstable",
            "autoremovals.yaml",
        ]
    );
    assert_eq!(all[3].url, "https://deb.debian.org/debian/dists/testing/Release");
}

#[test]
fn availability() {
    let r = releases();
    assert!(r.packages_are_available(Suite::Unstable));
    assert!(!r.packages_are_available(Suite::Testing(None)));
    assert!(r.packages_are_available(Suite::OldStable(None)));
    assert!(r.entry_is_available(CacheEntries::Sources(SuiteOrCodename::unstable())));
    assert!(!r.entry_is_available(CacheEntries::Sources(SuiteOrCodename::testing())));
    assert!(r.entry_is_available(CacheEntries::Excuses));
}

#[test]
fn command_downloads() {
    let pe = DrtToolsCommands::ProcessExcuses(ProcessExcusesOptions { ignore_age: false, ignore_autopkgtests: false });
    assert_eq!(pe.required_downloads(), vec![CacheEntries::Excuses]);
    assert_eq!(pe.downloads(), vec![CacheEntries::Packages(SuiteOrCodename::unstable())]);
    let eso = DrtToolsCommands::NMUOutdatedBuiltUsing(NMUOutdatedBuiltUsingOptions {
        build_priority: -50,
        suite: SuiteOrCodename::stable(),
        field: vec![],
    });
    assert_eq!(
        eso.required_downloads(),
        vec![
            CacheEntries::Packages(SuiteOrCodename::stable()),
            CacheEntries::Packages(SuiteOrCodename::stable_pu()),
            CacheEntries::Sources(SuiteOrCodename::stable()),
            CacheEntries::Sources(SuiteOrCodename::stable_pu()),
        ]
    );
    assert_eq!(eso.downloads(), vec![CacheEntries::FTBFSBugs(SuiteOrCodename::stable())]);
    let vs = DrtToolsCommands::NMUVersionSkew(NMUVersionSkewOptions { build_priority: 0, suite: SuiteOrCodename::testing() });
    assert_eq!(vs.required_downloads(), vec![CacheEntries::Packages(SuiteOrCodename::testing())]);
}

#[test]
fn work_after_downloads() {
    assert!(has_work(None, false));
    assert!(has_work(Some(CacheState::FreshFiles), false));
    assert!(!has_work(Some(CacheState::NoUpdate), false));
    assert!(has_work(Some(CacheState::NoUpdate), true));
}

#[test]
fn archive() {
    let sha256 = " efe2dafdf6a50f376af1dfc574d6bd3360558fde917555671b13832c89604d9f 26187 main/binary-i386/Packages
 ba66d22607be572323b72ca152d6e635fab075d92a2265bbfe319337c35ccd13 7777 main/binary-i386/Packages.gz
 e6be53e3210056ed6854cf2a362cb953eaa962ea811cfbe34cdad2807be61101 191 main/binary-i386/Release
 e3b0c44298fc1c149afbf4c8996fb92427ae41e4649b934ca495991b7852b855 0 main/debian-installer/binary-i386/Packages
 59869db34853933b239f1e2219cf7d431da006aa919635478511fabbfc8849d2 20 main/debian-installer/binary-i386/Packages.gz
 baf930986b322ef7ff8cc04fa57762c68e7f9d8b67a0423bd5441686cbf3e751 30187 main/binary-amd64/Packages
 0ad7ab0202ece24b57051f16010c72479b97e905c659f975eac5d69284c562f3 8821 main/binary-amd64/Packages.gz
 97e06eefea86617e4abc8a647d0faebd0eaca7c87031423a4ae1d38e8f1c97bb 192 main/binary-amd64/Release
 e3b0c44298fc1c149afbf4c8996fb92427ae41e4649b934ca495991b7852b855 0 main/debian-installer/binary-amd64/Packages
 59869db34853933b239f1e2219cf7d431da006aa919635478511fabbfc8849d2 20 main/debian-installer/binary-amd64/Packages.gz
 b0a524d1ba90e253c937859e3ce30bc49a291e33dbb8124706424cf5c06100a8 15130 main/source/Sources
 2bc04b364bfc30657836faf8d1de7f6044652bcca6af6503ef404a086897267a 4582 main/source/Sources.gz
 3637559f78ac17d0e55bce465d510ef912d539e4b810a66b32431dd76f5929d8 193 main/source/Release";
    let files = parse_sha256(sha256).unwrap();

    assert_eq!(
        parse_architecture_list("i386 amd64").unwrap(),
        vec![Architecture::I386, Architecture::Amd64]
    );
    assert_eq!(parse_component_list("main").unwrap(), vec![Component::Main]);
    assert_eq!(Suite::try_from("unstable").unwrap(), Suite::Unstable);
    assert_eq!(Codename::try_from("sid").unwrap(), Codename::Sid);
    assert!(files.contains_key("main/source/Release"));
    let info = files.get("main/source/Release").unwrap();
    assert_eq!(info.size(), 193);
    assert_eq!(
        info.sha256(),
        &vec![
            0x36, 0x37, 0x55, 0x9f, 0x78, 0xac, 0x17, 0xd0, 0xe5, 0x5b, 0xce, 0x46, 0x5d, 0x51, 0x0e, 0xf9, 0x12,
            0xd5, 0x39, 0xe4, 0xb8, 0x10, 0xa6, 0x6b, 0x32, 0x43, 0x1d, 0xd7, 0x6f, 0x59, 0x29, 0xd8
        ]
    );
    assert_eq!(files.len(), 13);
}
