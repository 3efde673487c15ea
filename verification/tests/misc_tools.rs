use drt_tools::architectures::Architecture;
use drt_tools::excuses::{ExcusesItem, Verdict};
use drt_tools::grep_excuses::{excuse_lines, matching_excuses};
use drt_tools::nmu_t64::{
    extract_package_from_dependency, library_names, split_comma_space, t64_rebuild, BinaryPackage,
};
use drt_tools::package::PackageName;
use drt_tools::release::{parse_sha256, FileInfo, FilesError};
use drt_tools::source_packages::{BinaryPackage as SourcesBinaryPackage, SourcePackages};
use drt_tools::usrmerged::{
    check_all_path, check_arch_path, ContentsMap, classify_move, compute_path_to_test, join_testing_packages, parse_contents_line, same_package_set, skip_path,
    strip_section, MoveOutcome,
};
use drt_tools::version::PackageVersion;
use drt_tools::nmu_t64::{collect_libraries, generate_nmus, list_arch_all_packages, load_sources, LibraryBinaryPackage};
use drt_tools::source_packages::SourcePackage;
use drt_tools::udd_bugs::{parse_source_list, Severity, UDDBug, UDDBugs};

fn excuse(source: &str, maintainer: Option<&str>, excuses: Vec<&str>) -> ExcusesItem {
    ExcusesItem {
        maintainer: maintainer.map(|m| m.to_string()),
        is_candidate: true,
        new_version: Some(PackageVersion::try_from("1.0-2").unwrap()),
        old_version: None,
        item_name: source.to_string(),
        source: PackageName::try_from(source).unwrap(),
        invalidated_by_other_package: None,
        component: None,
        missing_builds: None,
        policy_info: None,
        excuses: excuses.into_iter().map(|e| e.to_string()).collect(),
        migration_policy_verdict: Verdict::Pass,
    }
}

#[test]
fn grep_excuses_lines() {
    let e = excuse(
        "zathura",
        Some("Sebastian Ramacher <sramacher@debian.org>"),
        vec!["Migration status: <a href=\"x\">OK</a>", ""],
    );
    assert_eq!(
        excuse_lines(&e),
        vec![
            "zathura (- to 1.0-2)".to_string(),
            "  Maintainer: Sebastian Ramacher <sramacher@debian.org>".to_string(),
            "  Migration status: OK".to_string(),
            "  ".to_string(),
        ]
    );
    let excuses = vec![
        excuse("zathura", Some("me"), vec![]),
        excuse("girara", Some("you"), vec![]),
        excuse("mupdf", Some("me"), vec![]),
    ];
    assert_eq!(matching_excuses(&excuses, "me"), vec![0, 2]);
    assert_eq!(matching_excuses(&excuses, "girara"), vec![1]);
    assert!(matching_excuses(&excuses, "nobody").is_empty());
}

#[test]
fn release_files() {
    let hash = "8b2a1969501be49fe11e8e8005bf9a3aac0e073d4c7fd97dcb8bfb6f8c9a222a";
    let listing = format!("{hash} 193 main/source/Release\n{hash}  951   main/binary-amd64/Packages\n");
    let files = parse_sha256(&listing).unwrap();
    assert_eq!(files.len(), 2);
    let release = files.get("main/source/Release").unwrap();
    assert_eq!(release.size(), 193);
    assert_eq!(release.sha256()[0], 0x8b);
    assert_eq!(release.sha256()[31], 0x2a);
    assert_eq!(files.get("main/binary-amd64/Packages").unwrap().size(), 951);
    assert!(!files.contains_key("main/binary-i386/Packages"));
    // a name listed twice: its last line counts
    let twice = parse_sha256(&format!("{hash} 1 a\n{hash} 2 a\n")).unwrap();
    assert_eq!(twice.len(), 1);
    assert_eq!(twice.get("a").unwrap().size(), 2);
    assert!(matches!(parse_sha256(&format!("{hash} 193")), Err(FilesError::InvalidLine)));
    assert!(matches!(parse_sha256(&format!("{hash} x193 a")), Err(FilesError::InvalidSize)));
    assert!(matches!(parse_sha256("8b2a 193 a"), Err(FilesError::InvalidHash)));
    assert!(matches!(parse_sha256(&format!("{}g 1 a", &hash[..63])), Err(FilesError::InvalidHash)));
    assert!(parse_sha256("").unwrap().is_empty());
    assert!(FileInfo::new(1, vec![0; 31]).is_none());
    let info = FileInfo::new(7, vec![1; 32]).unwrap();
    assert_eq!(info.size(), 7);
    assert_eq!(info.sha256().len(), 32);
}

#[test]
fn usrmerged_paths() {
    assert!(skip_path("etc/foo"));
    assert!(skip_path("usr/share/doc/foo/copyright"));
    assert!(!skip_path("usr/bin/foo"));
    assert_eq!(strip_section("utils/coreutils"), "coreutils");
    assert_eq!(strip_section("coreutils"), "coreutils");
    assert_eq!(compute_path_to_test("usr/bin/ls"), "bin/ls");
    assert_eq!(compute_path_to_test("bin/ls"), "usr/bin/ls");
    for path in ["bin/ls", "usr/bin/ls", "usr/lib/x", "lib/usr/x"] {
        assert_eq!(compute_path_to_test(&compute_path_to_test(path)), path);
    }
    // the exception: a path under usr/usr/
    assert_eq!(compute_path_to_test(&compute_path_to_test("usr/usr/x")), "x");
    let (path, packages) = parse_contents_line("bin/ls      utils/coreutils,shells/busybox", false).unwrap();
    assert_eq!(path, "bin/ls");
    assert_eq!(packages, vec!["coreutils".to_string(), "busybox".to_string()]);
    assert!(parse_contents_line("etc/passwd admin/base-files", false).is_none());
    assert!(parse_contents_line("etc/passwd admin/base-files", true).is_some());
    assert!(parse_contents_line("lonely", false).is_none());
}

#[test]
fn usrmerged_moves() {
    let v = |xs: &[&str]| xs.iter().map(|x| x.to_string()).collect::<Vec<String>>();
    assert!(same_package_set(&v(&["a", "b"]), &v(&["b", "a", "a"])));
    assert!(!same_package_set(&v(&["a", "b"]), &v(&["a"])));
    assert_eq!(classify_move(&v(&["a"]), None, &v(&[]), false), MoveOutcome::NotFound);
    assert_eq!(classify_move(&v(&["a"]), Some(&v(&["b"])), &v(&["a"]), false), MoveOutcome::AlsoInOtherPackage);
    assert_eq!(classify_move(&v(&["a"]), Some(&v(&["b"])), &v(&[]), false), MoveOutcome::Moved);
    assert_eq!(classify_move(&v(&["a"]), Some(&v(&["a"])), &v(&[]), true), MoveOutcome::MovedInPackage);
    assert_eq!(classify_move(&v(&["a"]), Some(&v(&["a"])), &v(&[]), false), MoveOutcome::Renamed);
    assert_eq!(join_testing_packages(None, None), None);
    assert_eq!(join_testing_packages(Some(&v(&["a"])), Some(&v(&["b"]))), Some(v(&["a", "b"])));
    assert_eq!(join_testing_packages(None, Some(&v(&["b"]))), Some(v(&["b"])));
}

fn t64_binary(source: Option<&str>, package: &str, version: &str, arch: Architecture, depends: &str) -> BinaryPackage {
    BinaryPackage {
        source: source.map(|s| s.to_string()),
        package: package.to_string(),
        version: PackageVersion::try_from(version).unwrap(),
        architecture: arch,
        depends: depends.to_string(),
        pre_depends: String::new(),
    }
}

#[test]
fn t64_libraries() {
    assert_eq!(library_names("libfoo1t64", Architecture::All), None);
    assert_eq!(library_names("libfoo1", Architecture::Amd64), None);
    let names = library_names("libfoo1t64", Architecture::Amd64).unwrap();
    assert_eq!(names.len(), 14);
    assert_eq!(names[0], "libfoo1");
    assert_eq!(names[1], "libfoo1c202");
    assert_eq!(names[13], "libfoo1debian");
    let names = library_names("libcurl4t64-gnutls", Architecture::I386).unwrap();
    assert_eq!(names[0], "libcurl4-gnutls");
    assert_eq!(library_names("libpam0t64", Architecture::I386).unwrap(), vec!["libpam0t64".to_string()]);
    assert_eq!(extract_package_from_dependency("libc6 (>= 2.38)"), "libc6");
    assert_eq!(extract_package_from_dependency("libc6"), "libc6");
    assert_eq!(
        split_comma_space("libc6 (>= 2.38), libfoo1 | libbar1, x"),
        vec!["libc6 (>= 2.38)".to_string(), "libfoo1 | libbar1".to_string(), "x".to_string()]
    );
}

#[test]
fn t64_rebuilds() {
    let sources = SourcePackages::new(&[SourcesBinaryPackage {
        source: None,
        package: PackageName::try_from("foo").unwrap(),
        version: PackageVersion::try_from("1.0-1").unwrap(),
        multi_arch: None,
    }]);
    let libraries = vec!["libbar1".to_string()];
    let b = t64_binary(Some("foo"), "foo-bin", "1.0-1", Architecture::Amd64, "libc6 (>= 2.38), libbar1 (>= 1)");
    let (s, v) = t64_rebuild(&b, &libraries, &sources, false).unwrap();
    assert_eq!(s, "foo");
    assert_eq!(v.to_string(), "1.0-1");
    let b = t64_binary(Some("foo (0.9-1)"), "foo-bin", "1.0-1", Architecture::Amd64, "libbar1");
    assert!(t64_rebuild(&b, &libraries, &sources, false).is_none());
    let b = t64_binary(None, "foo", "1.0-1", Architecture::All, "libbar1");
    assert!(t64_rebuild(&b, &libraries, &sources, true).is_none());
    assert!(t64_rebuild(&b, &libraries, &sources, false).is_some());
    let b = t64_binary(None, "foo", "1.0-1", Architecture::Amd64, "libc6");
    assert!(t64_rebuild(&b, &libraries, &sources, false).is_none());
    let b = t64_binary(Some("foo (bad"), "foo", "1.0-1", Architecture::Amd64, "libbar1");
    assert!(b.source_and_version().is_err());
}

#[test]
fn t64_architecture_rebuilds() {

    let libraries = collect_libraries(&[
        LibraryBinaryPackage { package: "libbar1t64".to_string(), architecture: Architecture::Amd64 },
        LibraryBinaryPackage { package: "libbaz1t64".to_string(), architecture: Architecture::All },
        LibraryBinaryPackage { package: "libc6".to_string(), architecture: Architecture::Amd64 },
    ]);
    assert_eq!(libraries.len(), 14);
    assert_eq!(libraries[0], "libbar1");

    let source = |p: &str, v: &str, eso: bool| SourcePackage {
        package: PackageName::try_from(p).unwrap(),
        version: PackageVersion::try_from(v).unwrap(),
        extra_source_only: eso,
    };
    let sources = load_sources(&[
        source("foo", "1.0-1", false),
        source("foo", "2.0-1", true),
        source("bar", "1-1", false),
        source("linux", "6-1", false),
        source("broken", "1", false),
    ]);
    assert_eq!(sources.version("foo").unwrap().to_string(), "1.0-1");
    let testing = load_sources(&[source("foo", "1.0-1", false)]);
    let bugs = UDDBugs::new(vec![UDDBug {
        id: 1,
        source: parse_source_list("broken").unwrap(),
        severity: Severity::Serious,
        title: "FTBFS".to_string(),
    }]);
    let binaries = vec![
        t64_binary(Some("foo"), "foo-bin", "1.0-1+b1", Architecture::Amd64, "libbar1 (>= 1)"),
        t64_binary(Some("foo"), "foo-utils", "1.0-1", Architecture::Amd64, "libbar1"),
        t64_binary(None, "bar", "1-1", Architecture::Amd64, "libc6, libbar1c2"),
        t64_binary(None, "linux", "6-1", Architecture::Amd64, "libbar1"),
        t64_binary(None, "broken", "1", Architecture::Amd64, "libbar1"),
        t64_binary(Some("foo"), "foo-data", "1.0-1", Architecture::All, "libbar1"),
    ];
    let (commands, skipped) =
        generate_nmus(&binaries, &libraries, &sources, &testing, false, &bugs, Architecture::Amd64, 5).unwrap();
    assert_eq!(commands.len(), 2);
    assert_eq!(
        commands[0].to_string(),
        "nmu foo_1.0-1 . amd64 . unstable . -m \"Rebuild for time_t\"\nbp 5 foo_1.0-1 . amd64 . unstable"
    );
    assert!(commands[1].as_str().starts_with("nmu bar_1-1 . amd64"));
    assert_eq!(skipped, vec!["broken".to_string()]);
    let (commands, _) =
        generate_nmus(&binaries, &libraries, &sources, &testing, true, &bugs, Architecture::Amd64, 5).unwrap();
    assert_eq!(commands.len(), 1);
    assert!(generate_nmus(&binaries, &libraries, &sources, &testing, false, &bugs, Architecture::Source, 5).is_err());

    let reports = list_arch_all_packages(&binaries[5..], &libraries, &sources, &testing, true);
    assert_eq!(
        reports,
        vec!["# reportbug --src foo --package-version=1.0-1 --no-cc-menu --no-tags-menu --subject=\"foo: arch:all package depends on pre-t64 library\"".to_string()]
    );
}

#[test]
fn usrmerged_contents() {
    let mut testing = ContentsMap::new();
    testing.insert_line("usr/bin/ls utils/coreutils", false);
    testing.insert_line("bin/cat utils/coreutils", false);
    testing.insert_line("usr/bin/cat utils/coreutils", false);
    testing.insert_line("etc/skipped admin/base-files", false);
    testing.insert_line("usr/bin/mv utils/coreutils", false);
    testing.insert_line("usr/bin/mv utils/mv-ng", false);
    assert!(testing.get("etc/skipped").is_none());
    assert_eq!(testing.get("usr/bin/mv").unwrap(), &vec!["mv-ng".to_string()]);
    let mut all = ContentsMap::new();
    all.insert_line("usr/bin/ls doc/ls-doc", false);
    let empty = ContentsMap::new();

    let stable = vec!["coreutils".to_string()];
    let r = check_arch_path("bin/ls", &stable, &testing, &all, false).unwrap();
    assert_eq!(r.path, "bin/ls");
    assert_eq!(r.path_to_test, "usr/bin/ls");
    assert_eq!(r.outcome, MoveOutcome::Moved);
    assert_eq!(r.testing_packages, vec!["coreutils".to_string(), "ls-doc".to_string()]);
    let r = check_arch_path("bin/cat", &stable, &testing, &empty, false).unwrap();
    assert_eq!(r.outcome, MoveOutcome::Renamed);
    let r = check_arch_path("bin/cat", &stable, &testing, &empty, true).unwrap();
    assert_eq!(r.outcome, MoveOutcome::MovedInPackage);
    let r = check_arch_path("bin/mv", &stable, &testing, &empty, false).unwrap();
    assert_eq!(r.outcome, MoveOutcome::Moved);
    assert!(check_arch_path("bin/rm", &stable, &testing, &empty, false).is_none());

    assert_eq!(check_all_path("bin/cat", &stable, &testing, false).unwrap().outcome, MoveOutcome::Renamed);
    // the file must be in testing under both paths
    assert!(check_all_path("bin/ls", &stable, &testing, false).is_none());
    let r = check_all_path("usr/bin/cat", &vec!["other".to_string()], &testing, false).unwrap();
    assert_eq!(r.path_to_test, "bin/cat");
    assert_eq!(r.outcome, MoveOutcome::Moved);
}
