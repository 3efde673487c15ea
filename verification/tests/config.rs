use drt_tools::architectures::Architecture;
use drt_tools::archive::{Codename, Suite};
use drt_tools::config::{
    auto_removals_urls, excuses_urls, ftbfs_bugs_file_name, ftbfs_bugs_urls, packages_file_name,
    release_urls, source_skip_binnmu, sources_file_name, Compressor, DownloadInfo,
};

#[test]
fn skip_binnmu() {
    assert!(source_skip_binnmu("linux-signed-i386"));
    assert!(!source_skip_binnmu("zathura-signed-foo"));
}

#[test]
fn skip_binnmu_cases() {
    assert!(source_skip_binnmu("linux"));
    assert!(!source_skip_binnmu("linux-base"));
    assert!(source_skip_binnmu("debian-installer"));
    assert!(source_skip_binnmu("debian-installer-netboot-images"));
    assert!(source_skip_binnmu("grub-efi-amd64-signed"));
    assert!(source_skip_binnmu("shim-signed"));
    assert!(source_skip_binnmu("fwupd-amd64-signed"));
    assert!(!source_skip_binnmu("grub2"));
    assert!(source_skip_binnmu("gcc-14-cross"));
    assert!(source_skip_binnmu("binutils-mipsen-cross"));
    assert!(!source_skip_binnmu("gcc-14"));
    assert!(!source_skip_binnmu("cross-toolchain-base"));
    assert!(!source_skip_binnmu(""));
}

#[test]
fn download_urls() {
    let e = excuses_urls();
    assert_eq!(e.len(), 1);
    assert_eq!(e[0].url, "https://release.debian.org/britney/excuses.yaml.gz");
    assert_eq!(e[0].destination, "excuses.yaml");
    assert_eq!(e[0].compressor, Compressor::Gz);

    let a = auto_removals_urls();
    assert_eq!(a.len(), 1);
    assert_eq!(a[0].url, "https://udd.debian.org/cgi-bin/autoremovals.yaml.cgi");
    assert_eq!(a[0].destination, "autoremovals.yaml");
    assert_eq!(a[0].compressor, Compressor::Uncompressed);

    let f = ftbfs_bugs_urls(Codename::Sid);
    assert_eq!(f.len(), 1);
    assert_eq!(
        f[0].url,
        "https://udd.debian.org/bugs/?release=sid&ftbfs=only&merged=ign&done=ign&rc=1&sortby=id&sorto=asc&format=yaml"
    );
    assert_eq!(f[0].destination, "udd-ftbfs-bugs-sid.yaml");
    assert_eq!(ftbfs_bugs_file_name(Codename::Trixie(None)), "udd-ftbfs-bugs-trixie.yaml");

    let r = release_urls("https://deb.debian.org/debian", Suite::Unstable);
    assert_eq!(r.len(), 1);
    assert_eq!(r[0].url, "https://deb.debian.org/debian/dists/unstable/Release");
    assert_eq!(r[0].destination, "Release_unstable");
    assert_eq!(r[0].compressor, Compressor::Uncompressed);
}

#[test]
fn cache_file_names() {
    assert_eq!(packages_file_name(Suite::Unstable, Architecture::Amd64), "Packages_unstable_amd64");
    assert_eq!(sources_file_name(Suite::Testing(None)), "Sources_testing");
    let d = DownloadInfo::new("u".to_string(), "d".to_string());
    assert_eq!(d.url, "u");
    assert_eq!(d.destination, "d");
    assert_eq!(d.compressor, Compressor::Uncompressed);
}
