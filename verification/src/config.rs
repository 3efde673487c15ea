//! What the tools download and keep in their cache, and which source
//! packages are never rebuilt.

use vstd::prelude::*;

use crate::architectures::{architecture_name, Architecture};
use crate::archive::{
    codename_text, soc_codename, soc_suite, suite_or_codename_text, suite_text, Codename, Extension, Suite,
    SuiteOrCodename,
};
use crate::release::{lists_file, Release};
use crate::strings::{contains, has_infix, starts_with};
use crate::text::{has_prefix, str_eq};

verus! {

/// The template of the progress bars.
pub fn default_progress_template() -> (r: &'static str)
    ensures
        r@ == "{msg}: {spinner:.green} [{wide_bar:.cyan/blue}] {pos}/{len} ({per_sec}, {eta})"@,
{
    "{msg}: {spinner:.green} [{wide_bar:.cyan/blue}] {pos}/{len} ({per_sec}, {eta})"
}

/// The files that the cache holds.
#[derive(Clone, Copy, Debug, PartialEq, Eq, Structural)]
pub enum CacheEntries {
    Excuses,
    Packages(SuiteOrCodename),
    Sources(SuiteOrCodename),
    FTBFSBugs(SuiteOrCodename),
    AutoRemovals,
    Release(SuiteOrCodename),
}

/// Whether a download brought new files.
#[derive(Clone, Copy, Debug, PartialEq, Eq, Structural)]
pub enum CacheState {
    NoUpdate,
    FreshFiles,
}

/// Whether a command has work to do once the files that it needs fresh
/// were fetched: `state` is what fetching them gave, `None` where it needs
/// no fresh files. Where none of them changed and processing is not forced,
/// there is nothing to do.
pub fn has_work(state: Option<CacheState>, force_processing: bool) -> (r: bool)
    ensures
        r == !(state == Some(CacheState::NoUpdate) && !force_processing),
{
    match state {
        Some(CacheState::NoUpdate) => force_processing,
        _ => true,
    }
}

/// The compression of a downloaded file.
#[derive(Clone, Copy, Debug, PartialEq, Eq, Structural)]
pub enum Compressor {
    Xz,
    Gz,
    Uncompressed,
}

/// A file to download: from where, to which file of the cache, and how
/// it is compressed.
#[derive(Debug)]
pub struct DownloadInfo {
    pub url: String,
    pub destination: String,
    pub compressor: Compressor,
}

impl DownloadInfo {
    /// An uncompressed download.
    pub fn new(url: String, destination: String) -> (r: Self)
        ensures
            r.url@ == url@,
            r.destination@ == destination@,
            r.compressor == Compressor::Uncompressed,
    {
        Self { url, destination, compressor: Compressor::Uncompressed }
    }
}

/// The excuses of `britney`.
pub fn excuses_urls() -> (r: Vec<DownloadInfo>)
    ensures
        r@.len() == 1,
        r@[0].url@ == "https://release.debian.org/britney/excuses.yaml.gz"@,
        r@[0].destination@ == "excuses.yaml"@,
        r@[0].compressor == Compressor::Gz,
{
    let mut v = Vec::new();
    v.push(
        DownloadInfo {
            url: String::from_str("https://release.debian.org/britney/excuses.yaml.gz"),
            compressor: Compressor::Gz,
            destination: String::from_str("excuses.yaml"),
        },
    );
    v
}

/// The query of UDD for the bugs that make packages of a release fail to
/// build from source.
pub open spec fn ftbfs_bugs_url(codename: Codename) -> Seq<char> {
    "https://udd.debian.org/bugs/?release="@ + codename_text(codename)
        + "&ftbfs=only&merged=ign&done=ign&rc=1&sortby=id&sorto=asc&format=yaml"@
}

/// The cache file of the bugs that make packages of a release fail to build.
pub open spec fn ftbfs_bugs_file(codename: Codename) -> Seq<char> {
    "udd-ftbfs-bugs-"@ + codename_text(codename) + ".yaml"@
}

/// The bugs that make packages of a release fail to build.
pub fn ftbfs_bugs_urls(codename: Codename) -> (r: Vec<DownloadInfo>)
    ensures
        r@.len() == 1,
        r@[0].url@ == ftbfs_bugs_url(codename),
        r@[0].destination@ == ftbfs_bugs_file(codename),
        r@[0].compressor == Compressor::Uncompressed,
{
    let name = codename.to_string();
    let mut url = String::from_str("https://udd.debian.org/bugs/?release=");
    url.append(name.as_str());
    url.append("&ftbfs=only&merged=ign&done=ign&rc=1&sortby=id&sorto=asc&format=yaml");
    let mut v = Vec::new();
    v.push(DownloadInfo::new(url, ftbfs_bugs_file_name(codename)));
    v
}

/// The name of the cache file of the bugs that make packages of a release
/// fail to build.
pub fn ftbfs_bugs_file_name(codename: Codename) -> (r: String)
    ensures
        r@ == ftbfs_bugs_file(codename),
{
    let name = codename.to_string();
    let mut file = String::from_str("udd-ftbfs-bugs-");
    file.append(name.as_str());
    file.append(".yaml");
    file
}

/// The packages that are flagged for auto-removal.
pub fn auto_removals_urls() -> (r: Vec<DownloadInfo>)
    ensures
        r@.len() == 1,
        r@[0].url@ == "https://udd.debian.org/cgi-bin/autoremovals.yaml.cgi"@,
        r@[0].destination@ == "autoremovals.yaml"@,
        r@[0].compressor == Compressor::Uncompressed,
{
    let mut v = Vec::new();
    v.push(
        DownloadInfo::new(
            String::from_str("https://udd.debian.org/cgi-bin/autoremovals.yaml.cgi"),
            String::from_str("autoremovals.yaml"),
        ),
    );
    v
}

/// The `Release` file of a suite on a mirror.
pub fn release_urls(archive_mirror: &str, suite: Suite) -> (r: Vec<DownloadInfo>)
    ensures
        r@.len() == 1,
        r@[0].url@ == archive_mirror@ + "/dists/"@ + suite_text(suite) + "/Release"@,
        r@[0].destination@ == "Release_"@ + suite_text(suite),
        r@[0].compressor == Compressor::Uncompressed,
{
    let name = suite.to_string();
    let mut url = String::from_str(archive_mirror);
    url.append("/dists/");
    url.append(name.as_str());
    url.append("/Release");
    let mut file = String::from_str("Release_");
    file.append(name.as_str());
    let mut v = Vec::new();
    v.push(DownloadInfo::new(url, file));
    v
}

/// The name of the cache file of the binary packages of a suite on an
/// architecture.
pub fn packages_file_name(suite: Suite, architecture: Architecture) -> (r: String)
    ensures
        r@ == "Packages_"@ + suite_text(suite) + "_"@ + architecture_name(architecture),
{
    let name = suite.to_string();
    let mut file = String::from_str("Packages_");
    file.append(name.as_str());
    file.append("_");
    file.append(architecture.as_str());
    file
}

/// The name of the cache file of the source packages of a suite.
pub fn sources_file_name(suite: Suite) -> (r: String)
    ensures
        r@ == "Sources_"@ + suite_text(suite),
{
    let name = suite.to_string();
    let mut file = String::from_str("Sources_");
    file.append(name.as_str());
    file
}

/// Source packages that are never rebuilt: the installer, the kernel,
/// signed packages of the boot chain and cross toolchains.
pub open spec fn skip_binnmu(s: Seq<char>) -> bool {
    ||| has_prefix(s, "debian-installer"@)
    ||| s == "linux"@
    ||| (has_infix(s, "-signed"@) && (has_prefix(s, "grub-"@) || has_prefix(s, "linux-"@) || has_prefix(
        s,
        "shim-"@,
    ) || has_prefix(s, "fwupd-"@)))
    ||| (has_infix(s, "cross"@) && (has_prefix(s, "gcc-"@) || has_prefix(s, "binutils-"@)))
}

/// Check if package should be skipped for binNMUs.
pub fn source_skip_binnmu(source: &str) -> (r: bool)
    ensures
        r == skip_binnmu(source@),
{
    starts_with(source, "debian-installer") || str_eq(source, "linux") || (contains(source, "-signed")
        && (starts_with(source, "grub-") || starts_with(source, "linux-") || starts_with(source, "shim-")
        || starts_with(source, "fwupd-"))) || (contains(source, "cross") && (starts_with(source, "gcc-")
        || starts_with(source, "binutils-")))
}

/// The `Release` files of the suites that the tools work with, and the
/// mirror that serves them.
pub struct ArchiveReleases {
    pub archive_mirror: String,
    pub unstable: Release,
    pub testing: Release,
    pub stable: Release,
    pub oldstable: Release,
    pub experimental: Release,
    pub stable_proposed_updates: Release,
    pub oldstable_proposed_updates: Release,
    pub stable_backports: Release,
}

/// The suites whose `Release` files are kept.
pub open spec fn handled_suite(suite: Suite) -> bool {
    match suite {
        Suite::Unstable | Suite::Testing(_) | Suite::Stable(None) | Suite::OldStable(None)
        | Suite::Experimental => true,
        Suite::Stable(Some(Extension::ProposedUpdates)) | Suite::OldStable(Some(Extension::ProposedUpdates))
        | Suite::Stable(Some(Extension::Backports)) => true,
        _ => false,
    }
}

/// The path of the `Packages` file of an architecture in a suite.
pub open spec fn packages_path(architecture: Architecture) -> Seq<char> {
    "main/binary-"@ + architecture_name(architecture) + "/Packages.xz"@
}

/// The path of the `Sources` file in a suite.
pub open spec fn sources_path() -> Seq<char> {
    "main/source/Sources.xz"@
}

/// The parts of a download: its URL, destination and compression.
pub open spec fn download_view(d: DownloadInfo) -> (Seq<char>, Seq<char>, Compressor) {
    (d.url@, d.destination@, d.compressor)
}

/// The views of downloads.
pub open spec fn downloads_view(ds: Seq<DownloadInfo>) -> Seq<(Seq<char>, Seq<char>, Compressor)> {
    ds.map_values(|d: DownloadInfo| download_view(d))
}

impl ArchiveReleases {
    /// The `Release` file of a suite.
    pub open spec fn release_of(self, suite: Suite) -> Release {
        match suite {
            Suite::Unstable => self.unstable,
            Suite::Testing(_) => self.testing,
            Suite::Stable(None) => self.stable,
            Suite::OldStable(None) => self.oldstable,
            Suite::Experimental => self.experimental,
            Suite::Stable(Some(Extension::ProposedUpdates)) => self.stable_proposed_updates,
            Suite::OldStable(Some(Extension::ProposedUpdates)) => self.oldstable_proposed_updates,
            _ => self.stable_backports,
        }
    }

    /// The architectures of a suite: those of the `Release` file of its
    /// base suite (of unstable for experimental).
    pub open spec fn suite_architectures(self, suite: Suite) -> Seq<Architecture> {
        match suite {
            Suite::Unstable | Suite::Experimental => self.unstable.architectures@,
            Suite::Testing(_) => self.testing.architectures@,
            Suite::Stable(_) => self.stable.architectures@,
            Suite::OldStable(_) => self.oldstable.architectures@,
        }
    }

    /// The URL of a file of a suite.
    pub open spec fn file_url(self, suite: Suite, path: Seq<char>) -> Seq<char> {
        self.archive_mirror@ + "/dists/"@ + suite_text(suite) + "/"@ + path
    }

    /// The suite is kept and its `Release` file lists the path.
    pub open spec fn available(self, suite: Suite, path: Seq<char>) -> bool {
        handled_suite(suite) && lists_file(self.release_of(suite).files@, path)
    }

    /// The `Release` file of a suite.
    pub fn release_for(&self, suite: Suite) -> (r: &Release)
        requires
            handled_suite(suite),
        ensures
            *r == self.release_of(suite),
    {
        match suite {
            Suite::Unstable => &self.unstable,
            Suite::Testing(_) => &self.testing,
            Suite::Stable(None) => &self.stable,
            Suite::OldStable(None) => &self.oldstable,
            Suite::Experimental => &self.experimental,
            Suite::Stable(Some(Extension::ProposedUpdates)) => &self.stable_proposed_updates,
            Suite::OldStable(Some(Extension::ProposedUpdates)) => &self.oldstable_proposed_updates,
            _ => &self.stable_backports,
        }
    }

    /// The suite is kept and its `Release` file lists the path.
    pub fn is_available(&self, suite: Suite, path: &str) -> (r: bool)
        ensures
            r == self.available(suite, path@),
    {
        let handled = match suite {
            Suite::Unstable | Suite::Testing(_) | Suite::Stable(None) | Suite::OldStable(None)
            | Suite::Experimental => true,
            Suite::Stable(Some(Extension::ProposedUpdates)) | Suite::OldStable(
                Some(Extension::ProposedUpdates),
            ) | Suite::Stable(Some(Extension::Backports)) => true,
            _ => false,
        };
        if !handled {
            return false;
        }
        self.release_for(suite).lists(path)
    }

    /// The URL of a file that the `Release` file of a suite lists.
    pub fn lookup_url(&self, suite: Suite, path: &str) -> (r: String)
        requires
            self.available(suite, path@),
        ensures
            r@ == self.file_url(suite, path@),
    {
        let location = match self.release_for(suite).lookup_url(path) {
            Some(l) => l,
            None => String::from_str(path),
        };
        let name = suite.to_string();
        let mut url = crate::text::string_from(self.archive_mirror.as_str());
        url.append("/dists/");
        url.append(name.as_str());
        url.append("/");
        url.append(location.as_str());
        url
    }

    /// Architectures for a suite (including Arch: all)
    pub fn architectures_for_suite(&self, suite: Suite) -> (r: Vec<Architecture>)
        ensures
            r@ == self.suite_architectures(suite),
    {
        let archs = match suite {
            Suite::Unstable | Suite::Experimental => &self.unstable.architectures,
            Suite::Testing(_) => &self.testing.architectures,
            Suite::Stable(_) => &self.stable.architectures,
            Suite::OldStable(_) => &self.oldstable.architectures,
        };
        let mut out: Vec<Architecture> = Vec::new();
        let mut i: usize = 0;
        while i < archs.len()
            invariant
                i <= archs.len(),
                out@ == archs@.subrange(0, i as int),
            decreases archs.len() - i,
        {
            out.push(archs[i]);
            assert(out@ =~= archs@.subrange(0, i + 1));
            i = i + 1;
        }
        assert(archs@.subrange(0, archs.len() as int) =~= archs@);
        out
    }

    /// The `Packages` files of all architectures of a suite are listed.
    pub open spec fn packages_available(self, suite: Suite) -> bool {
        forall|a: Architecture| #[trigger] self.suite_architectures(suite).contains(a) ==> self.available(
            suite,
            packages_path(a),
        )
    }

    /// The downloads of the `Packages` files of a suite.
    pub open spec fn packages_downloads(self, suite: Suite) -> Seq<(Seq<char>, Seq<char>, Compressor)> {
        self.suite_architectures(suite).map_values(
            |a: Architecture|
                (
                    self.file_url(suite, packages_path(a)),
                    "Packages_"@ + suite_text(suite) + "_"@ + architecture_name(a),
                    Compressor::Xz,
                ),
        )
    }

    /// The `Packages` files of all architectures of a suite.
    pub fn packages_urls(&self, suite: Suite) -> (r: Vec<DownloadInfo>)
        requires
            self.packages_available(suite),
        ensures
            downloads_view(r@) == self.packages_downloads(suite),
    {
        let archs = self.architectures_for_suite(suite);
        let mut out: Vec<DownloadInfo> = Vec::new();
        let mut i: usize = 0;
        while i < archs.len()
            invariant
                i <= archs.len(),
                archs@ == self.suite_architectures(suite),
                self.packages_available(suite),
                downloads_view(out@) == self.packages_downloads(suite).subrange(0, i as int),
            decreases archs.len() - i,
        {
            let a = archs[i];
            assert(self.suite_architectures(suite).contains(a)) by {
                assert(self.suite_architectures(suite)[i as int] == a);
            }
            let mut path = String::from_str("main/binary-");
            path.append(a.as_str());
            path.append("/Packages.xz");
            proof {
                reveal_strlit("main/binary-");
                reveal_strlit("/Packages.xz");
            }
            assert(path@ =~= packages_path(a));
            let url = self.lookup_url(suite, path.as_str());
            let destination = packages_file_name(suite, a);
            let d = DownloadInfo { url, destination, compressor: Compressor::Xz };
            let ghost before = out@;
            out.push(d);
            assert(downloads_view(out@) =~= downloads_view(before).push(download_view(d)));
            assert(self.packages_downloads(suite).subrange(0, i + 1) =~= self.packages_downloads(suite).subrange(
                0,
                i as int,
            ).push(download_view(d)));
            i = i + 1;
        }
        assert(self.packages_downloads(suite).subrange(0, archs.len() as int) =~= self.packages_downloads(suite));
        out
    }

    /// The `Sources` file of a suite.
    pub fn source_urls(&self, suite: Suite) -> (r: Vec<DownloadInfo>)
        requires
            self.available(suite, sources_path()),
        ensures
            downloads_view(r@) == seq![
                (self.file_url(suite, sources_path()), "Sources_"@ + suite_text(suite), Compressor::Xz),
            ],
    {
        proof {
            reveal_strlit("main/source/Sources.xz");
        }
        let url = self.lookup_url(suite, "main/source/Sources.xz");
        let d = DownloadInfo { url, destination: sources_file_name(suite), compressor: Compressor::Xz };
        let mut v = Vec::new();
        v.push(d);
        assert(downloads_view(v@) =~= seq![download_view(d)]);
        v
    }

    /// What a cache entry needs to be downloaded.
    pub open spec fn entry_available(self, entry: CacheEntries) -> bool {
        match entry {
            CacheEntries::Packages(s) => self.packages_available(soc_suite(s)),
            CacheEntries::Sources(s) => self.available(soc_suite(s), sources_path()),
            _ => true,
        }
    }

    /// The `Packages` files of all architectures of a suite are listed.
    pub fn packages_are_available(&self, suite: Suite) -> (r: bool)
        ensures
            r == self.packages_available(suite),
    {
        let archs = self.architectures_for_suite(suite);
        let mut i: usize = 0;
        while i < archs.len()
            invariant
                i <= archs.len(),
                archs@ == self.suite_architectures(suite),
                forall|k: int| 0 <= k < i ==> self.available(suite, packages_path(#[trigger] archs@[k])),
            decreases archs.len() - i,
        {
            let mut path = String::from_str("main/binary-");
            path.append(archs[i].as_str());
            path.append("/Packages.xz");
            proof {
                reveal_strlit("main/binary-");
                reveal_strlit("/Packages.xz");
            }
            assert(path@ =~= packages_path(archs@[i as int]));
            if !self.is_available(suite, path.as_str()) {
                assert(self.suite_architectures(suite).contains(archs@[i as int]));
                return false;
            }
            i = i + 1;
        }
        assert forall|a: Architecture| #[trigger] self.suite_architectures(suite).contains(a) implies self.available(
            suite,
            packages_path(a),
        ) by {
            let k = choose|k: int| 0 <= k < archs@.len() && archs@[k] == a;
            assert(self.available(suite, packages_path(archs@[k])));
        }
        true
    }

    /// What a cache entry needs to be downloaded is there.
    pub fn entry_is_available(&self, entry: CacheEntries) -> (r: bool)
        ensures
            r == self.entry_available(entry),
    {
        proof {
            reveal_strlit("main/source/Sources.xz");
        }
        match entry {
            CacheEntries::Packages(s) => self.packages_are_available(Suite::from(s)),
            CacheEntries::Sources(s) => self.is_available(Suite::from(s), "main/source/Sources.xz"),
            _ => true,
        }
    }

    /// The downloads of a cache entry.
    pub open spec fn entry_downloads(self, entry: CacheEntries) -> Seq<(Seq<char>, Seq<char>, Compressor)> {
        match entry {
            CacheEntries::Excuses => seq![
                ("https://release.debian.org/britney/excuses.yaml.gz"@, "excuses.yaml"@, Compressor::Gz),
            ],
            CacheEntries::Packages(s) => self.packages_downloads(soc_suite(s)),
            CacheEntries::Sources(s) => seq![
                (self.file_url(soc_suite(s), sources_path()), "Sources_"@ + suite_text(soc_suite(s)), Compressor::Xz),
            ],
            CacheEntries::FTBFSBugs(s) => seq![
                (
                    ftbfs_bugs_url(soc_codename(s)),
                    ftbfs_bugs_file(soc_codename(s)),
                    Compressor::Uncompressed,
                ),
            ],
            CacheEntries::AutoRemovals => seq![
                (
                    "https://udd.debian.org/cgi-bin/autoremovals.yaml.cgi"@,
                    "autoremovals.yaml"@,
                    Compressor::Uncompressed,
                ),
            ],
            CacheEntries::Release(s) => seq![
                (
                    self.archive_mirror@ + "/dists/"@ + suite_text(soc_suite(s)) + "/Release"@,
                    "Release_"@ + suite_text(soc_suite(s)),
                    Compressor::Uncompressed,
                ),
            ],
        }
    }

    /// The downloads of cache entries, in order.
    pub open spec fn entries_downloads(self, entries: Seq<CacheEntries>) -> Seq<(Seq<char>, Seq<char>, Compressor)>
        decreases entries.len(),
    {
        if entries.len() == 0 {
            Seq::empty()
        } else {
            self.entries_downloads(entries.drop_last()) + self.entry_downloads(entries.last())
        }
    }

    /// The downloads of a cache entry.
    fn entry_urls(&self, entry: CacheEntries) -> (r: Vec<DownloadInfo>)
        requires
            self.entry_available(entry),
        ensures
            downloads_view(r@) == self.entry_downloads(entry),
    {
        let r = match entry {
            CacheEntries::Excuses => excuses_urls(),
            CacheEntries::Packages(suite) => self.packages_urls(Suite::from(suite)),
            CacheEntries::Sources(suite) => self.source_urls(Suite::from(suite)),
            CacheEntries::FTBFSBugs(codename) => ftbfs_bugs_urls(Codename::from(codename)),
            CacheEntries::AutoRemovals => auto_removals_urls(),
            CacheEntries::Release(suite) => release_urls(self.archive_mirror.as_str(), Suite::from(suite)),
        };
        proof {
            match entry {
                CacheEntries::Packages(_) => {},
                _ => {
                    assert(downloads_view(r@) =~= self.entry_downloads(entry));
                },
            }
        }
        r
    }

    /// The downloads of cache entries, in order.
    pub fn cache_entries_to_urls_dests(&self, entries: &[CacheEntries]) -> (r: Vec<DownloadInfo>)
        requires
            forall|i: int| 0 <= i < entries@.len() ==> self.entry_available(#[trigger] entries@[i]),
        ensures
            downloads_view(r@) == self.entries_downloads(entries@),
    {
        let mut out: Vec<DownloadInfo> = Vec::new();
        let mut i: usize = 0;
        while i < entries.len()
            invariant
                i <= entries.len(),
                forall|k: int| 0 <= k < entries@.len() ==> self.entry_available(#[trigger] entries@[k]),
                downloads_view(out@) == self.entries_downloads(entries@.subrange(0, i as int)),
            decreases entries.len() - i,
        {
            let mut more = self.entry_urls(entries[i]);
            let ghost before = out@;
            let ghost added = more@;
            out.append(&mut more);
            assert(out@ =~= before + added);
            assert(downloads_view(out@) =~= downloads_view(before) + downloads_view(added));
            let ghost p = entries@.subrange(0, i + 1);
            assert(p.drop_last() =~= entries@.subrange(0, i as int));
            i = i + 1;
        }
        assert(entries@.subrange(0, entries.len() as int) =~= entries@);
        out
    }
}

} // verus!
