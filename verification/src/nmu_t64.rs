//! Rebuilds for the 64-bit `time_t` transition: binary packages that
//! still depend on a library package from before its `t64` rename.

use vstd::prelude::*;

use crate::architectures::Architecture;
use crate::config::{skip_binnmu, source_skip_binnmu};
use crate::source_packages::{records, source_sightings, SourcePackage, SourcePackages, Sighting};
use crate::strings::{ends_with, views};
use crate::udd_bugs::{bugs_listing, UDDBug, UDDBugs};
use crate::wb::{
    binnmu_text, first_bad_architecture, BinNMU, BinNMUModel, Error, SourceModel, SourceSpecifier, WBArchitecture,
    WBCommand, WBCommandBuilder,
};
use crate::text::{chars_of, find_char, has_suffix, lemma_first_index, split_all, split_once, split_str, str_eq, string_of};
use crate::version::{
    lemma_version_order_antisym, lemma_version_order_refl, parse_version, version_order, version_text, without_binnmu,
    PackageVersion, VersionModel,
};

verus! {

/// The library packages whose `t64` rename was undone.
pub open spec fn t64_undone() -> Seq<Seq<char>> {
    seq![
        "libcom-err2t64"@,
        "libjellyfish-2.0-2t64"@,
        "libosmo-gsup-client0t64"@,
        "libosmo-hnbap0t64"@,
        "libosmo-mslookup0t64"@,
        "libosmo-ranap5t64"@,
        "libosmo-rua0t64"@,
        "libosmo-sabp1t64"@,
        "libosmo-sigtran7t64"@,
        "libosmomtp0t64"@,
        "libosmonetif8t64"@,
        "libosmosccp0t64"@,
        "libosmoxua0t64"@,
        "libpam0t64"@,
        "libshisa0t64"@,
        "libshish0t64"@,
        "libss2t64"@,
        "libuuid0t64"@,
    ]
}

/// The suffixes after `t64` in library package names.
pub open spec fn t64_suffixes() -> Seq<Seq<char>> {
    seq![""@, "-gnutls"@, "-heimdal"@, "-mesa"@, "-search"@, "-qt"@, "-gcrypt"@, "-nss"@, "-openssl"@]
}

/// The suffixes before `t64` that library package names had before the rename.
pub open spec fn lib_suffixes() -> Seq<Seq<char>> {
    seq![""@, "c202"@, "c2"@, "c2a"@, "a"@, "b"@, "c"@, "d"@, "e"@, "g"@, "ldbl"@, "v5"@, "gf"@, "debian"@]
}

/// The library packages whose `t64` rename was undone.
fn t64_undone_list() -> (r: Vec<&'static str>)
    ensures
        r@.map_values(|s: &str| s@) == t64_undone(),
{
    let v = vec![
        "libcom-err2t64",
        "libjellyfish-2.0-2t64",
        "libosmo-gsup-client0t64",
        "libosmo-hnbap0t64",
        "libosmo-mslookup0t64",
        "libosmo-ranap5t64",
        "libosmo-rua0t64",
        "libosmo-sabp1t64",
        "libosmo-sigtran7t64",
        "libosmomtp0t64",
        "libosmonetif8t64",
        "libosmosccp0t64",
        "libosmoxua0t64",
        "libpam0t64",
        "libshisa0t64",
        "libshish0t64",
        "libss2t64",
        "libuuid0t64",
    ];
    assert(v@.map_values(|s: &str| s@) =~= t64_undone());
    v
}

/// The suffixes after `t64`.
fn t64_suffix_list() -> (r: Vec<&'static str>)
    ensures
        r@.map_values(|s: &str| s@) == t64_suffixes(),
{
    let v = vec!["", "-gnutls", "-heimdal", "-mesa", "-search", "-qt", "-gcrypt", "-nss", "-openssl"];
    assert(v@.map_values(|s: &str| s@) =~= t64_suffixes());
    v
}

/// The suffixes before `t64`.
fn lib_suffix_list() -> (r: Vec<&'static str>)
    ensures
        r@.map_values(|s: &str| s@) == lib_suffixes(),
{
    let v = vec!["", "c202", "c2", "c2a", "a", "b", "c", "d", "e", "g", "ldbl", "v5", "gf", "debian"];
    assert(v@.map_values(|s: &str| s@) =~= lib_suffixes());
    v
}

/// The first suffix `s` of `t64_suffixes()` at or after `k` such that the
/// name ends with `t64` and `s`.
pub open spec fn first_t64_suffix(name: Seq<char>, k: int) -> Option<Seq<char>>
    decreases t64_suffixes().len() - k,
{
    if k < 0 || k >= t64_suffixes().len() {
        None
    } else if has_suffix(name, "t64"@ + t64_suffixes()[k]) {
        Some(t64_suffixes()[k])
    } else {
        first_t64_suffix(name, k + 1)
    }
}

/// The names that a library package had before its `t64` rename, for a
/// binary package of an architecture (`None` for `Arch: all` and for
/// packages that are no renamed libraries).
pub open spec fn pre_t64_names(name: Seq<char>, arch: Architecture) -> Option<Seq<Seq<char>>> {
    if arch == Architecture::All {
        None
    } else if t64_undone().contains(name) || name == "libc-ares2"@ {
        Some(seq![name])
    } else {
        match first_t64_suffix(name, 0) {
            Some(s) => {
                let stem = name.subrange(0, name.len() - 3 - s.len());
                Some(lib_suffixes().map_values(|l: Seq<char>| stem + l + s))
            },
            None => None,
        }
    }
}

/// The names that a library package had before its `t64` rename.
pub fn library_names(name: &str, architecture: Architecture) -> (r: Option<Vec<String>>)
    ensures
        match pre_t64_names(name@, architecture) {
            Some(ns) => r matches Some(v) && views(v@) == ns,
            None => r is None,
        },
{
    if architecture == Architecture::All {
        return None;
    }
    // t64 changes were reverted, so check if packages depend on the t64 library package instead
    let undone = t64_undone_list();
    let mut i: usize = 0;
    while i < undone.len()
        invariant
            i <= undone.len(),
            architecture != Architecture::All,
            undone@.map_values(|s: &str| s@) == t64_undone(),
            forall|k: int| 0 <= k < i ==> t64_undone()[k] != name@,
        decreases undone.len() - i,
    {
        assert(undone@.map_values(|s: &str| s@)[i as int] == undone@[i as int]@);
        if str_eq(undone[i], name) {
            assert(t64_undone()[i as int] == name@);
            assert(t64_undone().contains(name@));
            let mut v = Vec::new();
            v.push(String::from_str(name));
            assert(views(v@) =~= seq![name@]);
            assert(architecture != Architecture::All);
            assert(pre_t64_names(name@, architecture) == Some(seq![name@]));
            return Some(v);
        }
        i = i + 1;
    }
    // special packages
    if str_eq(name, "libc-ares2") {
        let mut v = Vec::new();
        v.push(String::from_str(name));
        assert(views(v@) =~= seq![name@]);
        return Some(v);
    }
    assert(!t64_undone().contains(name@));
    let suffixes = t64_suffix_list();
    proof {
        reveal_strlit("t64");
        reveal_strlit("libc-ares2");
    }
    let mut k: usize = 0;
    while k < suffixes.len()
        invariant
            k <= suffixes.len(),
            architecture != Architecture::All,
            !t64_undone().contains(name@),
            name@ != "libc-ares2"@,
            suffixes@.map_values(|s: &str| s@) == t64_suffixes(),
            first_t64_suffix(name@, 0) == first_t64_suffix(name@, k as int),
        decreases suffixes.len() - k,
    {
        assert(suffixes@.map_values(|s: &str| s@)[k as int] == suffixes@[k as int]@);
        let mut pattern = String::from_str("t64");
        pattern.append(suffixes[k]);
        if ends_with(name, pattern.as_str()) {
            let v = chars_of(name);
            let stem = string_of(&v, 0, v.len() - pattern.as_str().unicode_len());
            let libs = lib_suffix_list();
            proof {
                reveal_strlit("t64");
            }
            assert(pattern@ == "t64"@ + t64_suffixes()[k as int]);
            assert(pattern@.len() == 3 + t64_suffixes()[k as int].len());
            assert(first_t64_suffix(name@, k as int) == Some(t64_suffixes()[k as int]));
            assert(stem@ =~= name@.subrange(0, name@.len() - 3 - t64_suffixes()[k as int].len()));
            let mut out: Vec<String> = Vec::new();
            let mut l: usize = 0;
            while l < libs.len()
                invariant
                    l <= libs.len(),
                    k < suffixes.len(),
                    libs@.map_values(|s: &str| s@) == lib_suffixes(),
                    views(out@) == lib_suffixes().subrange(0, l as int).map_values(
                        |x: Seq<char>| stem@ + x + suffixes@[k as int]@,
                    ),
                decreases libs.len() - l,
            {
                assert(libs@.map_values(|s: &str| s@)[l as int] == libs@[l as int]@);
                let mut n = crate::text::string_from(stem.as_str());
                n.append(libs[l]);
                n.append(suffixes[k]);
                let ghost before = views(out@);
                out.push(n);
                assert(views(out@) =~= before.push(n@));
                assert(lib_suffixes().subrange(0, l + 1).map_values(|x: Seq<char>| stem@ + x + suffixes@[k as int]@)
                    =~= lib_suffixes().subrange(0, l as int).map_values(
                    |x: Seq<char>| stem@ + x + suffixes@[k as int]@,
                ).push(n@));
                l = l + 1;
            }
            assert(lib_suffixes().subrange(0, libs.len() as int) =~= lib_suffixes());
            return Some(out);
        }
        k = k + 1;
    }
    None
}

/// The package that a dependency names: the part before the first space.
pub open spec fn dependency_package(d: Seq<char>) -> Seq<char> {
    match split_once(d, ' ') {
        Some(p) => p.0,
        None => d,
    }
}

/// The package that a dependency names.
pub fn extract_package_from_dependency(dependency: &str) -> (r: String)
    ensures
        r@ == dependency_package(dependency@),
{
    let v = chars_of(dependency);
    let i = find_char(&v, ' ');
    proof {
        lemma_first_index(v@, ' ');
    }
    let r = string_of(&v, 0, i);
    assert(i == v.len() ==> r@ =~= dependency@);
    r
}

/// A binary package as the `time_t` rebuilds read it.
#[derive(Debug)]
pub struct BinaryPackage {
    pub source: Option<String>,
    pub package: String,
    pub version: PackageVersion,
    pub architecture: Architecture,
    pub depends: String,
    pub pre_depends: String,
}

/// The `Source` field is not `source` or `source (version)`.
#[derive(Debug, Clone, Copy, PartialEq, Eq, Structural)]
pub struct InvalidBinaryPackage;

/// The source and version of a binary package, as its fields give them.
pub open spec fn source_and_version_of(b: BinaryPackage) -> Option<(Seq<char>, VersionModel)> {
    match b.source {
        Some(s) => match split_once(s@, ' ') {
            Some(p) => {
                let v = p.1;
                if v.len() >= 2 && v[0] == '(' && v.last() == ')' {
                    match parse_version(v.subrange(1, v.len() - 1)) {
                        Ok(m) => Some((p.0, m)),
                        Err(_) => None,
                    }
                } else {
                    None
                }
            },
            None => Some((s@, b.version@)),
        },
        None => Some((b.package@, b.version@)),
    }
}

impl BinaryPackage {
    /// The source and version of the binary package.
    pub fn source_and_version(&self) -> (r: Result<(String, PackageVersion), InvalidBinaryPackage>)
        ensures
            match source_and_version_of(*self) {
                Some(x) => r matches Ok(y) && y.0@ == x.0 && y.1@ == x.1,
                None => r is Err,
            },
    {
        match &self.source {
            Some(source) => {
                let v = chars_of(source.as_str());
                let i = find_char(&v, ' ');
                proof {
                    lemma_first_index(v@, ' ');
                }
                if i == v.len() {
                    let s = string_of(&v, 0, v.len());
                    assert(s@ =~= source@);
                    return Ok((s, self.version.duplicate()));
                }
                let name = string_of(&v, 0, i);
                let n = v.len();
                if !(n - i >= 3 && v[i + 1] == '(' && v[n - 1] == ')') {
                    return Err(InvalidBinaryPackage);
                }
                let inner = string_of(&v, i + 2, n - 1);
                assert(inner@ =~= v@.subrange(i + 1, n as int).subrange(1, n - i - 2));
                match PackageVersion::try_from(inner.as_str()) {
                    Ok(version) => Ok((name, version)),
                    Err(_) => Err(InvalidBinaryPackage),
                }
            },
            None => Ok((crate::text::string_from(self.package.as_str()), self.version.duplicate())),
        }
    }
}

/// The packages that a dependency field names, separated by `, `.
pub open spec fn dependency_packages(field: Seq<char>) -> Seq<Seq<char>> {
    split_on_comma_space(field).map_values(|d: Seq<char>| dependency_package(d))
}

/// The pieces of a text separated by `, `.
pub open spec fn split_on_comma_space(s: Seq<char>) -> Seq<Seq<char>>
    decreases s.len(),
{
    match comma_space(s, 0) {
        Some(i) => {
            proof {
                lemma_comma_space(s, 0);
            }
            seq![s.subrange(0, i)] + split_on_comma_space(s.subrange(i + 2, s.len() as int))
        },
        None => seq![s],
    }
}

/// The first position at or after `k` where `, ` starts.
pub open spec fn comma_space(s: Seq<char>, k: int) -> Option<int>
    decreases s.len() - k,
{
    if k < 0 || k + 1 >= s.len() {
        None
    } else if s[k] == ',' && s[k + 1] == ' ' {
        Some(k)
    } else {
        comma_space(s, k + 1)
    }
}

pub proof fn lemma_comma_space(s: Seq<char>, k: int)
    requires
        0 <= k,
    ensures
        match comma_space(s, k) {
            Some(i) => k <= i && i + 1 < s.len() && s[i] == ',' && s[i + 1] == ' ',
            None => true,
        },
    decreases s.len() - k,
{
    if k + 1 < s.len() && !(s[k] == ',' && s[k + 1] == ' ') {
        lemma_comma_space(s, k + 1);
    }
}

/// The pieces of a text separated by `, `.
pub fn split_comma_space(s: &str) -> (r: Vec<String>)
    ensures
        views(r@) == split_on_comma_space(s@),
{
    let v = chars_of(s);
    let mut out: Vec<String> = Vec::new();
    let mut start: usize = 0;
    assert(v@.subrange(0, v@.len() as int) =~= v@);
    loop
        invariant
            start <= v.len(),
            v@ == s@,
            views(out@) + split_on_comma_space(v@.subrange(start as int, v@.len() as int)) == split_on_comma_space(s@),
        decreases v.len() - start,
    {
        let ghost rest = v@.subrange(start as int, v@.len() as int);
        let mut i = start;
        while v.len() - i > 1 && !(v[i] == ',' && v[i + 1] == ' ')
            invariant
                start <= i <= v.len(),
                v@ == s@,
                rest == v@.subrange(start as int, v@.len() as int),
                comma_space(rest, 0) == comma_space(rest, i - start),
            decreases v.len() - i,
        {
            assert(rest[i - start] == v@[i as int]);
            assert(rest[i - start + 1] == v@[i + 1]);
            i = i + 1;
        }
        proof {
            if v.len() - i > 1 {
                assert(rest[i - start] == v@[i as int]);
                assert(rest[i - start + 1] == v@[i + 1]);
            }
        }
        let ghost old_out = out@;
        if v.len() - i <= 1 {
            let piece = string_of(&v, start, v.len());
            out.push(piece);
            assert(views(out@) =~= views(old_out).push(piece@));
            assert(split_on_comma_space(rest) == seq![rest]);
            assert(piece@ =~= rest);
            assert(views(out@) =~= views(old_out) + split_on_comma_space(rest));
            return out;
        }
        let piece = string_of(&v, start, i);
        out.push(piece);
        assert(views(out@) =~= views(old_out).push(piece@));
        assert(piece@ =~= rest.subrange(0, i - start));
        assert(rest.subrange(i - start + 2, rest.len() as int) =~= v@.subrange(i + 2, v@.len() as int));
        assert(views(out@) + split_on_comma_space(v@.subrange(i + 2, v@.len() as int)) =~= views(old_out)
            + split_on_comma_space(rest));
        start = i + 2;
    }
}

/// Whether `name` is among the names.
fn contains_name(names: &Vec<String>, name: &str) -> (r: bool)
    ensures
        r == views(names@).contains(name@),
{
    let mut i: usize = 0;
    while i < names.len()
        invariant
            i <= names.len(),
            forall|k: int| 0 <= k < i ==> names@[k]@ != name@,
        decreases names.len() - i,
    {
        if str_eq(names[i].as_str(), name) {
            assert(views(names@)[i as int] == name@);
            return true;
        }
        i = i + 1;
    }
    assert forall|k: int| 0 <= k < views(names@).len() implies views(names@)[k] != name@ by {
        assert(views(names@)[k] == names@[k]@);
    }
    false
}

/// A binary package needs a rebuild: it is not skipped as `Arch: all`, its
/// source and version can be read, the version is current, and it depends
/// (or pre-depends) on a library package before its `t64` rename.
pub open spec fn needs_t64_rebuild(
    b: BinaryPackage,
    libraries: Seq<Seq<char>>,
    sources: Map<Seq<char>, (bool, VersionModel)>,
    skip_arch_all: bool,
) -> Option<(Seq<char>, VersionModel)> {
    if skip_arch_all && b.architecture == Architecture::All {
        None
    } else {
        match source_and_version_of(b) {
            None => None,
            Some((source, version)) => if !sources.contains_key(source) || version_order(
                version,
                sources[source].1,
            ) < 0 {
                None
            } else if exists|k: int|
                0 <= k < (dependency_packages(b.depends@) + dependency_packages(b.pre_depends@)).len()
                    && libraries.contains(
                    #[trigger] (dependency_packages(b.depends@) + dependency_packages(b.pre_depends@))[k],
                ) {
                Some((source, version))
            } else {
                None
            },
        }
    }
}

/// The source and version to rebuild for a binary package, if any.
pub fn t64_rebuild(
    binary_package: &BinaryPackage,
    library_packages: &Vec<String>,
    source_packages: &SourcePackages,
    skip_arch_all: bool,
) -> (r: Option<(String, PackageVersion)>)
    ensures
        match needs_t64_rebuild(*binary_package, views(library_packages@), source_packages@, skip_arch_all) {
            Some(x) => r matches Some(y) && y.0@ == x.0 && y.1@ == x.1,
            None => r is None,
        },
{
    // skip Arch: all packages
    if skip_arch_all && binary_package.architecture == Architecture::All {
        return None;
    }
    let (source, version) = match binary_package.source_and_version() {
        Ok(x) => x,
        Err(_) => return None,
    };
    match source_packages.version(source.as_str()) {
        Some(current) => {
            if version.order(current) < 0 {
                return None;
            }
        },
        None => return None,
    }
    assert(source_packages@.contains_key(source@));
    assert(version_order(version@, source_packages@[source@].1) >= 0);
    let ghost deps = dependency_packages(binary_package.depends@) + dependency_packages(binary_package.pre_depends@);
    let first = split_comma_space(binary_package.depends.as_str());
    let second = split_comma_space(binary_package.pre_depends.as_str());
    let mut all: Vec<String> = Vec::new();
    let mut i: usize = 0;
    let ghost fs = split_on_comma_space(binary_package.depends@);
    let ghost ss = split_on_comma_space(binary_package.pre_depends@);
    while i < first.len()
        invariant
            i <= first.len(),
            views(first@) == fs,
            views(all@) == fs.subrange(0, i as int).map_values(|d: Seq<char>| dependency_package(d)),
        decreases first.len() - i,
    {
        let p = extract_package_from_dependency(first[i].as_str());
        let ghost before = views(all@);
        all.push(p);
        assert(views(all@) =~= before.push(p@));
        assert(fs[i as int] == first@[i as int]@);
        assert(fs.subrange(0, i + 1).map_values(|d: Seq<char>| dependency_package(d)) =~= fs.subrange(
            0,
            i as int,
        ).map_values(|d: Seq<char>| dependency_package(d)).push(p@));
        i = i + 1;
    }
    assert(fs.subrange(0, first.len() as int) =~= fs);
    let mut j: usize = 0;
    while j < second.len()
        invariant
            j <= second.len(),
            views(second@) == ss,
            views(all@) == fs.map_values(|d: Seq<char>| dependency_package(d)) + ss.subrange(0, j as int).map_values(
                |d: Seq<char>| dependency_package(d),
            ),
        decreases second.len() - j,
    {
        let p = extract_package_from_dependency(second[j].as_str());
        let ghost before = views(all@);
        all.push(p);
        assert(views(all@) =~= before.push(p@));
        assert(ss[j as int] == second@[j as int]@);
        assert(ss.subrange(0, j + 1).map_values(|d: Seq<char>| dependency_package(d)) =~= ss.subrange(
            0,
            j as int,
        ).map_values(|d: Seq<char>| dependency_package(d)).push(p@));
        j = j + 1;
    }
    assert(ss.subrange(0, second.len() as int) =~= ss);
    assert(views(all@) =~= deps);
    let mut k: usize = 0;
    while k < all.len()
        invariant
            k <= all.len(),
            views(all@) == deps,
            deps == dependency_packages(binary_package.depends@) + dependency_packages(binary_package.pre_depends@),
            !(skip_arch_all && binary_package.architecture == Architecture::All),
            source_and_version_of(*binary_package) == Some((source@, version@)),
            source_packages@.contains_key(source@),
            version_order(version@, source_packages@[source@].1) >= 0,
            forall|t: int| 0 <= t < k ==> !views(library_packages@).contains(#[trigger] deps[t]),
        decreases all.len() - k,
    {
        assert(deps[k as int] == all@[k as int]@);
        if contains_name(library_packages, all[k].as_str()) {
            assert(views(library_packages@).contains(deps[k as int]));
            assert(source_and_version_of(*binary_package) == Some((source@, version@)));
            assert(source_packages@.contains_key(source@));
            assert(version_order(version@, source_packages@[source@].1) >= 0);
            assert(needs_t64_rebuild(*binary_package, views(library_packages@), source_packages@, skip_arch_all) == Some((source@, version@)));
            return Some((source, version));
        }
        k = k + 1;
    }
    None
}


// ---------------------------------------------------------------------
// The rebuilds of an architecture
// ---------------------------------------------------------------------

/// A binary package as the names of renamed libraries need it.
#[derive(Debug)]
pub struct LibraryBinaryPackage {
    pub package: String,
    pub architecture: Architecture,
}

/// The names that the library packages had before their `t64` rename, in
/// the order of the packages.
pub open spec fn libraries_of(bins: Seq<LibraryBinaryPackage>) -> Seq<Seq<char>>
    decreases bins.len(),
{
    if bins.len() == 0 {
        Seq::empty()
    } else {
        libraries_of(bins.drop_last()) + match pre_t64_names(bins.last().package@, bins.last().architecture) {
            Some(ns) => ns,
            None => Seq::empty(),
        }
    }
}

/// The names that the library packages of a `Packages` file had before
/// their `t64` rename.
pub fn collect_libraries(binaries: &[LibraryBinaryPackage]) -> (r: Vec<String>)
    ensures
        views(r@) == libraries_of(binaries@),
{
    let mut out: Vec<String> = Vec::new();
    let mut i: usize = 0;
    assert(binaries@.subrange(0, 0) =~= Seq::<LibraryBinaryPackage>::empty());
    assert(views(out@) =~= Seq::<Seq<char>>::empty());
    while i < binaries.len()
        invariant
            i <= binaries.len(),
            views(out@) == libraries_of(binaries@.subrange(0, i as int)),
        decreases binaries.len() - i,
    {
        let ghost p = binaries@.subrange(0, i + 1);
        assert(p.drop_last() =~= binaries@.subrange(0, i as int));
        assert(p.last() == binaries@[i as int]);
        match library_names(binaries[i].package.as_str(), binaries[i].architecture) {
            Some(mut names) => {
                let ghost before = views(out@);
                let ghost added = views(names@);
                let ghost raw = names@;
                let ghost old_out = out@;
                out.append(&mut names);
                assert(out@ =~= old_out + raw);
                assert(views(out@) =~= before + added);
            },
            None => {
                assert(views(out@) =~= views(out@) + Seq::<Seq<char>>::empty());
            },
        }
        i = i + 1;
    }
    assert(binaries@.subrange(0, binaries.len() as int) =~= binaries@);
    out
}

/// The source packages of a `Sources` file with their highest versions,
/// leaving out those that are only kept for another package's sake
/// (`Extra-Source-Only: yes`).
pub fn load_sources(sources: &[SourcePackage]) -> (r: SourcePackages)
    ensures
        records(r@, source_sightings(sources@)),
{
    let r = SourcePackages::new_with_source(sources, &[]);
    assert(crate::source_packages::binary_sightings(Seq::empty()) =~= Seq::<Sighting>::empty());
    assert(source_sightings(sources@) + Seq::<Sighting>::empty() =~= source_sightings(sources@));
    r
}

/// The rebuild that a binary package of an architecture asks for: its
/// source and the version without a binNMU part, unless the source is
/// never rebuilt or, where asked, is not in testing.
pub open spec fn t64_candidate(
    b: BinaryPackage,
    libraries: Seq<Seq<char>>,
    sources: Map<Seq<char>, (bool, VersionModel)>,
    testing: Map<Seq<char>, (bool, VersionModel)>,
    skip_not_in_testing: bool,
) -> Option<(Seq<char>, VersionModel)> {
    match needs_t64_rebuild(b, libraries, sources, true) {
        None => None,
        Some((s, v)) => if skip_binnmu(s) || (skip_not_in_testing && !testing.contains_key(s)) {
            None
        } else {
            Some((s, without_binnmu(v)))
        },
    }
}

/// Two rebuilds are of the same source and of equal versions.
#[verifier::opaque]
pub open spec fn same_rebuild(a: (Seq<char>, VersionModel), b: (Seq<char>, VersionModel)) -> bool {
    a.0 == b.0 && version_order(a.1, b.1) == 0
}

/// `d` holds a rebuild equal to `x`.
pub open spec fn has_rebuild(d: Seq<(Seq<char>, VersionModel)>, x: (Seq<char>, VersionModel)) -> bool {
    exists|k: int| 0 <= k < d.len() && same_rebuild(#[trigger] d[k], x)
}

/// The rebuilds that the binary packages ask for, each once (up to equal
/// versions), in the order in which they first come.
pub open spec fn t64_candidates(
    bins: Seq<BinaryPackage>,
    libraries: Seq<Seq<char>>,
    sources: Map<Seq<char>, (bool, VersionModel)>,
    testing: Map<Seq<char>, (bool, VersionModel)>,
    skip_not_in_testing: bool,
) -> Seq<(Seq<char>, VersionModel)>
    decreases bins.len(),
{
    if bins.len() == 0 {
        Seq::empty()
    } else {
        let d = t64_candidates(bins.drop_last(), libraries, sources, testing, skip_not_in_testing);
        match t64_candidate(bins.last(), libraries, sources, testing, skip_not_in_testing) {
            Some(x) => if has_rebuild(d, x) {
                d
            } else {
                d.push(x)
            },
            None => d,
        }
    }
}

/// The rebuild of a source for the `time_t` transition on an architecture.
pub open spec fn t64_binnmu(c: (Seq<char>, VersionModel), architecture: Architecture, build_priority: i32) -> BinNMUModel {
    BinNMUModel {
        source: SourceModel {
            source: c.0,
            version: Some(version_text(c.1)),
            architectures: seq![WBArchitecture::Architecture(architecture)],
            suite: Some("unstable"@),
        },
        message: "Rebuild for time_t"@,
        nmu_version: None,
        extra_depends: None,
        priority: Some(build_priority),
        dep_wait: None,
    }
}

/// The rebuilds of the candidates and the sources left out because they
/// fail to build, in order; an error at the first rebuild that the
/// architecture rules out.
pub open spec fn t64_outcomes(
    cands: Seq<(Seq<char>, VersionModel)>,
    bugs: Seq<UDDBug>,
    architecture: Architecture,
    build_priority: i32,
) -> Result<(Seq<Seq<char>>, Seq<Seq<char>>), WBArchitecture>
    decreases cands.len(),
{
    if cands.len() == 0 {
        Ok((Seq::empty(), Seq::empty()))
    } else {
        match t64_outcomes(cands.drop_last(), bugs, architecture, build_priority) {
            Err(a) => Err(a),
            Ok((cs, fs)) => {
                let c = cands.last();
                if bugs_listing(bugs, c.0).len() > 0 {
                    Ok((cs, fs.push(c.0)))
                } else {
                    match first_bad_architecture(seq![WBArchitecture::Architecture(architecture)], true) {
                        Some(a) => Err(a),
                        None => Ok((cs.push(binnmu_text(t64_binnmu(c, architecture, build_priority))), fs)),
                    }
                }
            },
        }
    }
}

/// Adds a rebuild unless an equal one is there.
fn insert_rebuild(
    set: &mut Vec<(String, PackageVersion)>,
    x: (String, PackageVersion),
    Ghost(d): Ghost<Seq<(Seq<char>, VersionModel)>>,
)
    requires
        old(set)@.map_values(|e: (String, PackageVersion)| (e.0@, e.1@)) == d,
    ensures
        final(set)@.map_values(|e: (String, PackageVersion)| (e.0@, e.1@)) == (if has_rebuild(d, (x.0@, x.1@)) {
            d
        } else {
            d.push((x.0@, x.1@))
        }),
{
    let ghost xv = (x.0@, x.1@);
    let mut i: usize = 0;
    while i < set.len()
        invariant
            i <= set.len(),
            set@.map_values(|e: (String, PackageVersion)| (e.0@, e.1@)) == d,
            xv == (x.0@, x.1@),
            forall|k: int| 0 <= k < i ==> !same_rebuild(#[trigger] d[k], xv),
        decreases set.len() - i,
    {
        assert(d[i as int] == (set@[i as int].0@, set@[i as int].1@));
        proof {
            reveal(same_rebuild);
        }
        if str_eq(set[i].0.as_str(), x.0.as_str()) && set[i].1.order(&x.1) == 0 {
            assert(same_rebuild(d[i as int], xv));
            assert(has_rebuild(d, xv));
            return;
        }
        i = i + 1;
    }
    assert(!has_rebuild(d, xv));
    let ghost before = set@;
    set.push(x);
    assert(set@.map_values(|e: (String, PackageVersion)| (e.0@, e.1@)) =~= d.push(xv));
}

/// An error on a prefix of the candidates is the error on all of them.
proof fn lemma_t64_outcomes_err(
    all: Seq<(Seq<char>, VersionModel)>,
    k: int,
    bugs: Seq<UDDBug>,
    architecture: Architecture,
    build_priority: i32,
)
    requires
        0 <= k <= all.len(),
        t64_outcomes(all.subrange(0, k), bugs, architecture, build_priority) is Err,
    ensures
        t64_outcomes(all, bugs, architecture, build_priority) == t64_outcomes(
            all.subrange(0, k),
            bugs,
            architecture,
            build_priority,
        ),
    decreases all.len() - k,
{
    if k < all.len() {
        let p = all.subrange(0, k + 1);
        assert(p.drop_last() =~= all.subrange(0, k));
        lemma_t64_outcomes_err(all, k + 1, bugs, architecture, build_priority);
    } else {
        assert(all.subrange(0, k) =~= all);
    }
}

/// The rebuilds for the `time_t` transition on an architecture: for each
/// source (once per version) whose binary packages of the architecture
/// depend on a library before its `t64` rename, a rebuild in unstable;
/// the sources that fail to build are left out and returned.
pub fn generate_nmus(
    binaries: &[BinaryPackage],
    library_packages: &Vec<String>,
    source_packages: &SourcePackages,
    testing_source_packages: &SourcePackages,
    skip_not_in_testing: bool,
    ftbfs_bugs: &UDDBugs,
    architecture: Architecture,
    build_priority: i32,
) -> (r: Result<(Vec<WBCommand>, Vec<String>), Error>)
    ensures
        ({
            let cands = t64_candidates(
                binaries@,
                views(library_packages@),
                source_packages@,
                testing_source_packages@,
                skip_not_in_testing,
            );
            match t64_outcomes(cands, ftbfs_bugs@, architecture, build_priority) {
                Ok((cs, fs)) => r matches Ok((c, f)) && c@.map_values(|w: WBCommand| w@) == cs && views(f@) == fs,
                Err(a) => r matches Err(Error::InvalidArchitecture(b, c)) && a == b && c@ == "nmu"@,
            }
        }),
{
    let ghost libs = views(library_packages@);
    let mut packages: Vec<(String, PackageVersion)> = Vec::new();
    let mut i: usize = 0;
    assert(binaries@.subrange(0, 0) =~= Seq::<BinaryPackage>::empty());
    assert(packages@.map_values(|e: (String, PackageVersion)| (e.0@, e.1@)) =~= Seq::<(Seq<char>, VersionModel)>::empty());
    while i < binaries.len()
        invariant
            i <= binaries.len(),
            libs == views(library_packages@),
            packages@.map_values(|e: (String, PackageVersion)| (e.0@, e.1@)) == t64_candidates(
                binaries@.subrange(0, i as int),
                libs,
                source_packages@,
                testing_source_packages@,
                skip_not_in_testing,
            ),
        decreases binaries.len() - i,
    {
        let ghost p = binaries@.subrange(0, i + 1);
        assert(p.drop_last() =~= binaries@.subrange(0, i as int));
        assert(p.last() == binaries@[i as int]);
        let ghost d = packages@.map_values(|e: (String, PackageVersion)| (e.0@, e.1@));
        match t64_rebuild(&binaries[i], library_packages, source_packages, true) {
            Some((source, version)) => {
                // skip some packages that make no sense to binNMU
                let skip = source_skip_binnmu(source.as_str()) || (skip_not_in_testing
                    && testing_source_packages.version(source.as_str()).is_none());
                if !skip {
                    let base = version.clone_without_binnmu_version();
                    insert_rebuild(&mut packages, (source, base), Ghost(d));
                }
            },
            None => {},
        }
        i = i + 1;
    }
    assert(binaries@.subrange(0, binaries.len() as int) =~= binaries@);
    let ghost cands = packages@.map_values(|e: (String, PackageVersion)| (e.0@, e.1@));
    let mut commands: Vec<WBCommand> = Vec::new();
    let mut skipped: Vec<String> = Vec::new();
    let mut archs: Vec<Architecture> = Vec::new();
    archs.push(architecture);
    let mut k: usize = 0;
    assert(cands.subrange(0, 0) =~= Seq::<(Seq<char>, VersionModel)>::empty());
    assert(commands@.map_values(|w: WBCommand| w@) =~= Seq::<Seq<char>>::empty());
    assert(views(skipped@) =~= Seq::<Seq<char>>::empty());
    while k < packages.len()
        invariant
            k <= packages.len(),
            cands == packages@.map_values(|e: (String, PackageVersion)| (e.0@, e.1@)),
            cands == t64_candidates(
                binaries@,
                views(library_packages@),
                source_packages@,
                testing_source_packages@,
                skip_not_in_testing,
            ),
            archs@ == seq![architecture],
            t64_outcomes(cands.subrange(0, k as int), ftbfs_bugs@, architecture, build_priority) == Ok::<
                (Seq<Seq<char>>, Seq<Seq<char>>),
                WBArchitecture,
            >((commands@.map_values(|w: WBCommand| w@), views(skipped@))),
        decreases packages.len() - k,
    {
        let ghost p = cands.subrange(0, k + 1);
        assert(p.drop_last() =~= cands.subrange(0, k as int));
        assert(p.last() == (packages@[k as int].0@, packages@[k as int].1@));
        let source = &packages[k].0;
        // check if package FTBFS
        if ftbfs_bugs.bugs_for_source(source.as_str()).is_some() {
            let ghost before = skipped@;
            let s = crate::text::string_from(source.as_str());
            skipped.push(s);
            assert(views(skipped@) =~= views(before).push(s@));
        } else {
            let version = packages[k].1.to_string();
            let mut spec = SourceSpecifier::new(source.as_str());
            spec.with_version(version.as_str());
            spec.with_suite("unstable");
            spec.with_archive_architectures(archs.as_slice());
            assert(spec@.architectures =~= seq![WBArchitecture::Architecture(architecture)]);
            let mut binnmu = match BinNMU::new(&spec, "Rebuild for time_t") {
                Ok(b) => b,
                Err(e) => {
                    proof {
                        assert(bugs_listing(ftbfs_bugs@, p.last().0).len() == 0);
                        assert(first_bad_architecture(seq![WBArchitecture::Architecture(architecture)], true) is Some);
                        assert(t64_outcomes(p, ftbfs_bugs@, architecture, build_priority) is Err);
                        lemma_t64_outcomes_err(cands, k + 1, ftbfs_bugs@, architecture, build_priority);
                    }
                    return Err(e);
                },
            };
            binnmu.with_build_priority(build_priority);
            let c = binnmu.build();
            proof {
                reveal_strlit("Rebuild for time_t");
                reveal_strlit("unstable");
            }
            assert(binnmu@ == t64_binnmu(cands[k as int], architecture, build_priority));
            let ghost before = commands@;
            commands.push(c);
            assert(commands@.map_values(|w: WBCommand| w@) =~= before.map_values(|w: WBCommand| w@).push(c@));
        }
        k = k + 1;
    }
    assert(cands.subrange(0, packages.len() as int) =~= cands);
    Ok((commands, skipped))
}

/// The report of an `Arch: all` package that still depends on a library
/// before its `t64` rename.
pub open spec fn arch_all_report(source: Seq<char>, version: VersionModel) -> Seq<char> {
    "# reportbug --src "@ + source + " --package-version="@ + version_text(version)
        + " --no-cc-menu --no-tags-menu --subject=\""@ + source
        + ": arch:all package depends on pre-t64 library\""@
}

/// The reports of the `Arch: all` packages, one per package, in order.
pub open spec fn arch_all_reports(
    bins: Seq<BinaryPackage>,
    libraries: Seq<Seq<char>>,
    sources: Map<Seq<char>, (bool, VersionModel)>,
    testing: Map<Seq<char>, (bool, VersionModel)>,
    skip_not_in_testing: bool,
) -> Seq<Seq<char>>
    decreases bins.len(),
{
    if bins.len() == 0 {
        Seq::empty()
    } else {
        let before = arch_all_reports(bins.drop_last(), libraries, sources, testing, skip_not_in_testing);
        match needs_t64_rebuild(bins.last(), libraries, sources, false) {
            Some((s, v)) => if skip_not_in_testing && !testing.contains_key(s) {
                before
            } else {
                before.push(arch_all_report(s, v))
            },
            None => before,
        }
    }
}

/// The reports for the `Arch: all` packages that depend on libraries before
/// their `t64` rename.
pub fn list_arch_all_packages(
    binaries: &[BinaryPackage],
    library_packages: &Vec<String>,
    source_packages: &SourcePackages,
    testing_source_packages: &SourcePackages,
    skip_not_in_testing: bool,
) -> (r: Vec<String>)
    ensures
        views(r@) == arch_all_reports(
            binaries@,
            views(library_packages@),
            source_packages@,
            testing_source_packages@,
            skip_not_in_testing,
        ),
{
    let mut out: Vec<String> = Vec::new();
    let mut i: usize = 0;
    assert(binaries@.subrange(0, 0) =~= Seq::<BinaryPackage>::empty());
    assert(views(out@) =~= Seq::<Seq<char>>::empty());
    while i < binaries.len()
        invariant
            i <= binaries.len(),
            views(out@) == arch_all_reports(
                binaries@.subrange(0, i as int),
                views(library_packages@),
                source_packages@,
                testing_source_packages@,
                skip_not_in_testing,
            ),
        decreases binaries.len() - i,
    {
        let ghost p = binaries@.subrange(0, i + 1);
        assert(p.drop_last() =~= binaries@.subrange(0, i as int));
        assert(p.last() == binaries@[i as int]);
        match t64_rebuild(&binaries[i], library_packages, source_packages, false) {
            Some((source, version)) => {
                if !(skip_not_in_testing && testing_source_packages.version(source.as_str()).is_none()) {
                    let mut line = String::from_str("# reportbug --src ");
                    line.append(source.as_str());
                    line.append(" --package-version=");
                    let v = version.to_string();
                    line.append(v.as_str());
                    line.append(" --no-cc-menu --no-tags-menu --subject=\"");
                    line.append(source.as_str());
                    line.append(": arch:all package depends on pre-t64 library\"");
                    let ghost before = views(out@);
                    out.push(line);
                    assert(views(out@) =~= before.push(line@));
                }
            },
            None => {},
        }
        i = i + 1;
    }
    assert(binaries@.subrange(0, binaries.len() as int) =~= binaries@);
    out
}

} // verus!
