//! Rebuilds from `.buildinfo` files: the packages of builds that were not
//! made on the buildds are rebuilt there.

use vstd::prelude::*;

use crate::architectures::Architecture;
use crate::buildinfo::Buildinfo;
use crate::cli::{binnmu_with_options, options_binnmu, BinNMUsOptions};
use crate::archive::suite_or_codename_text;
use crate::source_packages::SourcePackages;
use crate::strings::{lines, split_lines, starts_with, views};
use crate::text::has_prefix;
use crate::udd_bugs::{bugs_listing, UDDBugs};
use crate::version::{version_order, version_text, without_binnmu};
use crate::wb::{binnmu_text, first_bad_architecture, Error, SourceModel, SourceSpecifier, WBArchitecture, WBCommand};

verus! {

/// Why a build is not rebuilt.
#[derive(Debug)]
pub enum SkipReason {
    /// The build has no architecture that can be rebuilt
    NoArchitecture,
    /// The archive has a newer version
    NewerVersion,
    /// The source is no longer in the archive
    Removed,
    /// The source has bugs that make it fail to build
    FailsToBuild,
    /// `wb` cannot take the command
    Command(Error),
}

/// The architectures of a build that can be rebuilt: not `all`, not `source`.
pub open spec fn rebuildable(archs: Seq<Architecture>) -> Seq<Architecture>
    decreases archs.len(),
{
    if archs.len() == 0 {
        Seq::empty()
    } else {
        let p = rebuildable(archs.drop_last());
        let a = archs.last();
        if a != Architecture::All && a != Architecture::Source {
            p.push(a)
        } else {
            p
        }
    }
}

/// The source specifier of the rebuild of a build: the version without
/// binNMU part, the suite of the options, and the architectures of the
/// build unless the source builds a `Multi-Arch: same` package.
pub open spec fn buildinfo_spec(b: Buildinfo, options: BinNMUsOptions, sources: SourcePackages) -> SourceModel {
    SourceModel {
        source: b.source@,
        version: Some(version_text(without_binnmu(b.version@))),
        architectures: if sources@.contains_key(b.source@) && sources@[b.source@].0 {
            Seq::empty()
        } else {
            rebuildable(b.architecture@).map_values(|a: Architecture| WBArchitecture::Architecture(a))
        },
        suite: Some(suite_or_codename_text(options.suite)),
    }
}

/// The rebuild of a build: none where it has no architecture to rebuild,
/// where the archive has a newer version or no version of the source,
/// or where the source fails to build.
pub fn process(
    buildinfo: Buildinfo,
    options: &BinNMUsOptions,
    source_packages: &SourcePackages,
    source_versions: &SourcePackages,
    ftbfs_bugs: &UDDBugs,
) -> (r: Result<WBCommand, SkipReason>)
    ensures
        ({
            let b = buildinfo;
            let name = b.source@;
            if rebuildable(b.architecture@).len() == 0 {
                r matches Err(SkipReason::NoArchitecture)
            } else if !source_versions@.contains_key(name) {
                r matches Err(SkipReason::Removed)
            } else if version_order(source_versions@[name].1, b.version@) > 0 {
                r matches Err(SkipReason::NewerVersion)
            } else if bugs_listing(ftbfs_bugs@, name).len() > 0 {
                r matches Err(SkipReason::FailsToBuild)
            } else {
                let spec = buildinfo_spec(b, *options, *source_packages);
                match first_bad_architecture(spec.architectures, true) {
                    Some(a) => r matches Err(SkipReason::Command(Error::InvalidArchitecture(x, c))) && x == a && c@ == "nmu"@,
                    None => r matches Ok(c) && c@ == binnmu_text(options_binnmu(spec, *options)),
                }
            }
        }),
{
    let ghost b = buildinfo;
    let mut architectures: Vec<Architecture> = Vec::new();
    let mut i: usize = 0;
    assert(buildinfo.architecture@.subrange(0, 0) =~= Seq::<Architecture>::empty());
    while i < buildinfo.architecture.len()
        invariant
            i <= buildinfo.architecture.len(),
            architectures@ == rebuildable(buildinfo.architecture@.subrange(0, i as int)),
        decreases buildinfo.architecture.len() - i,
    {
        let ghost p = buildinfo.architecture@.subrange(0, i + 1);
        assert(p.drop_last() =~= buildinfo.architecture@.subrange(0, i as int));
        let a = buildinfo.architecture[i];
        if a != Architecture::All && a != Architecture::Source {
            architectures.push(a);
        }
        i = i + 1;
    }
    assert(buildinfo.architecture@.subrange(0, buildinfo.architecture.len() as int) =~= buildinfo.architecture@);
    if architectures.len() == 0 {
        return Err(SkipReason::NoArchitecture);
    }
    match source_versions.version(buildinfo.source.as_str()) {
        Some(version) => {
            if version.order(&buildinfo.version) > 0 {
                return Err(SkipReason::NewerVersion);
            }
        },
        None => return Err(SkipReason::Removed),
    }
    if ftbfs_bugs.bugs_for_source(buildinfo.source.as_str()).is_some() {
        return Err(SkipReason::FailsToBuild);
    }
    let version = buildinfo.version.clone_without_binnmu_version();
    let version_string = version.to_string();
    let suite = options.suite.to_string();
    let mut spec = SourceSpecifier::new(buildinfo.source.as_str());
    spec.with_version(version_string.as_str());
    spec.with_suite(suite.as_str());
    if !source_packages.is_ma_same(buildinfo.source.as_str()) {
        // binNMU only on the architecture if no MA: same binary packages
        spec.with_archive_architectures(architectures.as_slice());
        assert(spec@.architectures =~= rebuildable(b.architecture@).map_values(
            |a: Architecture| WBArchitecture::Architecture(a),
        ));
    }
    assert(spec@.source == buildinfo_spec(b, *options, *source_packages).source);
    assert(spec@.version == buildinfo_spec(b, *options, *source_packages).version);
    assert(spec@.architectures == buildinfo_spec(b, *options, *source_packages).architectures);
    assert(spec@.suite == buildinfo_spec(b, *options, *source_packages).suite);
    assert(spec@ == buildinfo_spec(b, *options, *source_packages));
    match binnmu_with_options(&spec, options) {
        Ok(c) => Ok(c),
        Err(e) => Err(SkipReason::Command(e)),
    }
}

/// The lines of a signed file from the line that starts with `Format: `
/// on, as they are.
pub open spec fn from_format(ls: Seq<Seq<char>>) -> Seq<Seq<char>>
    decreases ls.len(),
{
    if ls.len() == 0 {
        Seq::empty()
    } else if has_prefix(ls[0], "Format: "@) {
        ls
    } else {
        from_format(ls.drop_first())
    }
}

/// The lines up to the one that begins the signature, each followed by a
/// newline.
pub open spec fn up_to_signature(ls: Seq<Seq<char>>) -> Seq<char>
    decreases ls.len(),
{
    if ls.len() == 0 || has_prefix(ls[0], "-----BEGIN"@) {
        Seq::empty()
    } else {
        ls[0] + "\n"@ + up_to_signature(ls.drop_first())
    }
}

/// A signed buildinfo file without its signature: from the line that
/// starts with `Format: ` up to the signature block.
pub open spec fn unsigned(s: Seq<char>) -> Seq<char> {
    up_to_signature(from_format(lines(s)))
}

/// Strip the signature from a buildinfo file without verifying it
pub fn strip_signature(input: &str) -> (r: String)
    ensures
        r@ == unsigned(input@),
{
    let ls = split_lines(input);
    let ghost all = lines(input@);
    assert(views(ls@) == all);
    // Skip until the beginning of a buildinfo file
    let mut i: usize = 0;
    assert(all.subrange(0, all.len() as int) =~= all);
    while i < ls.len() && !starts_with(ls[i].as_str(), "Format: ")
        invariant
            i <= ls.len(),
            views(ls@) == all,
            from_format(all) == from_format(all.subrange(i as int, all.len() as int)),
        decreases ls.len() - i,
    {
        let ghost t = all.subrange(i as int, all.len() as int);
        assert(t[0] == ls@[i as int]@);
        assert(t.drop_first() =~= all.subrange(i + 1, all.len() as int));
        i = i + 1;
    }
    proof {
        let t = all.subrange(i as int, all.len() as int);
        if i < ls.len() {
            assert(t[0] == ls@[i as int]@);
        }
    }
    let ghost start = i;
    let mut data = String::new();
    // Read until beginning of the signature block
    while i < ls.len() && !starts_with(ls[i].as_str(), "-----BEGIN")
        invariant
            start <= i <= ls.len(),
            views(ls@) == all,
            data@ + up_to_signature(all.subrange(i as int, all.len() as int)) == up_to_signature(
                all.subrange(start as int, all.len() as int),
            ),
        decreases ls.len() - i,
    {
        let ghost t = all.subrange(i as int, all.len() as int);
        assert(t[0] == ls@[i as int]@);
        assert(t.drop_first() =~= all.subrange(i + 1, all.len() as int));
        let ghost d0 = data@;
        data.append(ls[i].as_str());
        data.append("\n");
        assert(data@ == d0 + ls@[i as int]@ + "\n"@);
        assert(up_to_signature(t) == t[0] + "\n"@ + up_to_signature(t.drop_first()));
        assert(data@ + up_to_signature(all.subrange(i + 1, all.len() as int)) =~= d0 + up_to_signature(t));
        i = i + 1;
    }
    proof {
        let t = all.subrange(i as int, all.len() as int);
        if i < ls.len() {
            assert(t[0] == ls@[i as int]@);
        }
        assert(data@ + up_to_signature(t) =~= data@);
    }
    data
}

} // verus!
