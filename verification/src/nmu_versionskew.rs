//! Rebuilds for version skew: `Multi-Arch: same` binary packages must have
//! the same version on all architectures, so a source whose binNMU versions
//! differ between architectures is rebuilt where it lags behind.

use vstd::prelude::*;
use vstd::hash_map::StringHashMap;

use crate::architectures::Architecture;
use crate::archive::{suite_or_codename_text, MultiArch, SuiteOrCodename};
use crate::config::{skip_binnmu, source_skip_binnmu};
use crate::order::{lemma_lex_order_basics, lemma_lex_order_trans, lex_order};
use crate::package::PackageName;
use crate::source_packages::{binary_source, BinaryPackage as SourcesBinaryPackage};
use crate::udd_bugs::{bugs_listing, UDDBug, UDDBugs};
use crate::version::{
    binnmu_of, lemma_version_order_antisym, lemma_version_order_refl, lemma_version_order_trans, version_order,
    version_text, without_binnmu, PackageVersion, VersionModel,
};

use crate::wb::{
    binnmu_text, first_bad_architecture, BinNMU, BinNMUModel, Error, SourceModel, SourceSpecifier, WBArchitecture,
    WBCommand, WBCommandBuilder,
};

verus! {

/// A binary package with its architecture.
#[derive(Debug)]
pub struct BinaryPackage {
    pub package: SourcesBinaryPackage,
    pub architecture: Architecture,
}

/// What a binary package tells of version skew: the source, the
/// architecture and the binary version, for `Multi-Arch: same` packages
/// that are not `Arch: all` and whose source is rebuilt at all.
pub open spec fn skew_entry(b: BinaryPackage) -> Option<(Seq<char>, Architecture, VersionModel)> {
    if b.package.multi_arch == Some(MultiArch::Same) && b.architecture != Architecture::All && !skip_binnmu(
        binary_source(b.package),
    ) {
        Some((binary_source(b.package), b.architecture, b.package.version@))
    } else {
        None
    }
}

/// The binary package tells of version skew of source `n`.
pub open spec fn entry_for(b: BinaryPackage, n: Seq<char>) -> bool {
    skew_entry(b) matches Some(e) && e.0 == n
}

/// The first of the highest versions of source `n` on architecture `a`.
pub open spec fn arch_max(bins: Seq<BinaryPackage>, n: Seq<char>, a: Architecture) -> Option<VersionModel>
    decreases bins.len(),
{
    if bins.len() == 0 {
        None
    } else {
        let p = arch_max(bins.drop_last(), n, a);
        match skew_entry(bins.last()) {
            Some(e) => if e.0 == n && e.1 == a {
                match p {
                    None => Some(e.2),
                    Some(m) => if version_order(e.2, m) > 0 {
                        Some(e.2)
                    } else {
                        p
                    },
                }
            } else {
                p
            },
            None => p,
        }
    }
}

/// The architectures of source `n`, in the order in which they first come.
pub open spec fn archs_of(bins: Seq<BinaryPackage>, n: Seq<char>) -> Seq<Architecture>
    decreases bins.len(),
{
    if bins.len() == 0 {
        Seq::empty()
    } else {
        let p = archs_of(bins.drop_last(), n);
        match skew_entry(bins.last()) {
            Some(e) => if e.0 == n && !p.contains(e.1) {
                p.push(e.1)
            } else {
                p
            },
            None => p,
        }
    }
}

/// The highest versions of source `n` on its architectures.
pub open spec fn arch_maxima(bins: Seq<BinaryPackage>, n: Seq<char>) -> Seq<VersionModel> {
    archs_of(bins, n).map_values(|a: Architecture| arch_max(bins, n, a)->0)
}

/// The first of the highest versions of a non-empty list.
pub open spec fn first_highest(ms: Seq<VersionModel>) -> VersionModel
    decreases ms.len(),
{
    if ms.len() <= 1 {
        ms[0]
    } else {
        let p = first_highest(ms.drop_last());
        if version_order(ms.last(), p) > 0 {
            ms.last()
        } else {
            p
        }
    }
}

/// All versions are equal.
pub open spec fn all_equal(ms: Seq<VersionModel>) -> bool {
    forall|i: int, j: int| 0 <= i < ms.len() && 0 <= j < ms.len() ==> version_order(#[trigger] ms[i], #[trigger] ms[j]) == 0
}

/// All versions are equal without their binNMU parts.
pub open spec fn same_base(ms: Seq<VersionModel>) -> bool {
    forall|i: int, j: int|
        0 <= i < ms.len() && 0 <= j < ms.len() ==> version_order(
            without_binnmu(#[trigger] ms[i]),
            without_binnmu(#[trigger] ms[j]),
        ) == 0
}

/// The architectures whose highest version is not `v`.
pub open spec fn lagging(archs: Seq<Architecture>, bins: Seq<BinaryPackage>, n: Seq<char>, v: VersionModel) -> Seq<
    Architecture,
>
    decreases archs.len(),
{
    if archs.len() == 0 {
        Seq::empty()
    } else {
        let p = lagging(archs.drop_last(), bins, n, v);
        if version_order(arch_max(bins, n, archs.last())->0, v) != 0 {
            p.push(archs.last())
        } else {
            p
        }
    }
}

/// Source `n` has version skew to fix: its binaries are on some
/// architectures, their highest versions differ but only in binNMU parts,
/// and it has no bugs that make it fail to build.
pub open spec fn skewed(bins: Seq<BinaryPackage>, bugs: Seq<UDDBug>, n: Seq<char>) -> bool {
    let ms = arch_maxima(bins, n);
    &&& ms.len() > 0
    &&& !all_equal(ms)
    &&& same_base(ms)
    &&& bugs_listing(bugs, n).len() == 0
}

/// The rebuild that the version skew of `n` asks for: the highest version
/// and the architectures that lag behind it.
pub open spec fn skew_of(bins: Seq<BinaryPackage>, n: Seq<char>) -> (VersionModel, Seq<Architecture>) {
    let v = first_highest(arch_maxima(bins, n));
    (v, lagging(archs_of(bins, n), bins, n, v))
}

/// The view of a result entry.
pub open spec fn skew_view(e: (PackageName, PackageVersion, Vec<Architecture>)) -> (Seq<char>, VersionModel, Seq<Architecture>) {
    (e.0@, e.1@, e.2@)
}

/// The sources with version skew to fix, sorted by name, each with its
/// highest version and the architectures that lag behind.
pub open spec fn version_skew_of(
    r: Seq<(Seq<char>, VersionModel, Seq<Architecture>)>,
    bins: Seq<BinaryPackage>,
    bugs: Seq<UDDBug>,
) -> bool {
    &&& forall|i: int, j: int| 0 <= i < j < r.len() ==> lex_order((#[trigger] r[i]).0, (#[trigger] r[j]).0) < 0
    &&& forall|i: int|
        0 <= i < r.len() ==> skewed(bins, bugs, (#[trigger] r[i]).0) && (r[i].1, r[i].2) == skew_of(bins, r[i].0)
    &&& forall|n: Seq<char>| #[trigger] skewed(bins, bugs, n) ==> exists|i: int| 0 <= i < r.len() && r[i].0 == n
}

/// The entry of a binary package, computed.
fn entry_of(b: &BinaryPackage) -> (r: Option<(&PackageName, Architecture, &PackageVersion)>)
    ensures
        match skew_entry(*b) {
            Some(e) => r matches Some(x) && x.0@ == e.0 && x.1 == e.1 && x.2@ == e.2,
            None => r is None,
        },
{
    if !b.package.is_ma_same() || b.architecture == Architecture::All {
        return None;
    }
    let name = match &b.package.source {
        Some(s) => &s.source,
        None => &b.package.package,
    };
    if source_skip_binnmu(name.as_str()) {
        return None;
    }
    Some((name, b.architecture, &b.package.version))
}

/// `v` holds the architectures of `n`, in order, each with its highest
/// version.
pub open spec fn maxima_of(v: Seq<(Architecture, PackageVersion)>, bins: Seq<BinaryPackage>, n: Seq<char>) -> bool {
    &&& v.map_values(|e: (Architecture, PackageVersion)| e.0) == archs_of(bins, n)
    &&& forall|k: int| 0 <= k < v.len() ==> arch_max(bins, n, (#[trigger] v[k]).0) == Some(v[k].1@)
}

/// An architecture that `n` does not have has no highest version.
proof fn lemma_arch_max_none(bins: Seq<BinaryPackage>, n: Seq<char>, a: Architecture)
    ensures
        !archs_of(bins, n).contains(a) ==> arch_max(bins, n, a) is None,
    decreases bins.len(),
{
    if bins.len() > 0 {
        lemma_arch_max_none(bins.drop_last(), n, a);
        let p = archs_of(bins.drop_last(), n);
        match skew_entry(bins.last()) {
            Some(e) => {
                if e.0 == n {
                    if !p.contains(e.1) {
                        let q = p.push(e.1);
                        assert(q[p.len() as int] == e.1);
                        if p.contains(a) {
                            let k = choose|k: int| 0 <= k < p.len() && p[k] == a;
                            assert(q[k] == a);
                        }
                    }
                }
            },
            None => {},
        }
    }
}

/// A copy of the maxima.
fn copy_maxima(v: &Vec<(Architecture, PackageVersion)>) -> (r: Vec<(Architecture, PackageVersion)>)
    ensures
        r@.len() == v@.len(),
        forall|k: int| 0 <= k < v@.len() ==> (#[trigger] r@[k]).0 == v@[k].0 && r@[k].1@ == v@[k].1@,
{
    let mut out: Vec<(Architecture, PackageVersion)> = Vec::new();
    let mut i: usize = 0;
    while i < v.len()
        invariant
            i <= v.len(),
            out@.len() == i,
            forall|k: int| 0 <= k < i ==> (#[trigger] out@[k]).0 == v@[k].0 && out@[k].1@ == v@[k].1@,
        decreases v.len() - i,
    {
        out.push((v[i].0, v[i].1.duplicate()));
        i = i + 1;
    }
    out
}

/// The maxima of `n` after one more binary package of `n`.
fn update_maxima(
    v: &Vec<(Architecture, PackageVersion)>,
    arch: Architecture,
    version: &PackageVersion,
    Ghost(pre): Ghost<Seq<BinaryPackage>>,
    Ghost(post): Ghost<Seq<BinaryPackage>>,
    Ghost(n): Ghost<Seq<char>>,
) -> (r: Vec<(Architecture, PackageVersion)>)
    requires
        maxima_of(v@, pre, n),
        post.len() > 0,
        post.drop_last() == pre,
        skew_entry(post.last()) == Some((n, arch, version@)),
    ensures
        maxima_of(r@, post, n),
{
    let mut out = copy_maxima(v);
    let ghost keys = v@.map_values(|e: (Architecture, PackageVersion)| e.0);
    assert(out@.map_values(|e: (Architecture, PackageVersion)| e.0) =~= keys);
    assert forall|k: int| 0 <= k < out@.len() implies arch_max(pre, n, (#[trigger] out@[k]).0) == Some(out@[k].1@) by {
        assert(v@[k].0 == out@[k].0);
    }
    // find the architecture
    let mut k: usize = 0;
    while k < out.len() && out[k].0 != arch
        invariant
            k <= out.len(),
            forall|l: int| 0 <= l < k ==> out@[l].0 != arch,
        decreases out.len() - k,
    {
        k = k + 1;
    }
    if k < out.len() {
        assert(keys[k as int] == arch);
        assert(keys.contains(arch));
        if version.order(&out[k].1) > 0 {
            let ghost old_out = out@;
            out.set(k, (arch, version.duplicate()));
            proof {
                assert(out@.map_values(|e: (Architecture, PackageVersion)| e.0) =~= keys);
                assert forall|l: int| 0 <= l < out@.len() implies arch_max(post, n, (#[trigger] out@[l]).0) == Some(
                    out@[l].1@,
                ) by {
                    if l != k {
                        assert(out@[l] == old_out[l]);
                        assert(old_out[l].0 != arch) by {
                            if old_out[l].0 == arch {
                                lemma_keys_distinct(pre, n, l, k as int, keys);
                            }
                        }
                    }
                }
            }
        } else {
            proof {
                assert forall|l: int| 0 <= l < out@.len() implies arch_max(post, n, (#[trigger] out@[l]).0) == Some(
                    out@[l].1@,
                ) by {
                    if out@[l].0 == arch {
                        if l != k {
                            lemma_keys_distinct(pre, n, l, k as int, keys);
                        }
                    }
                }
            }
        }
    } else {
        assert(!keys.contains(arch)) by {
            if keys.contains(arch) {
                let l = choose|l: int| 0 <= l < keys.len() && keys[l] == arch;
                assert(out@[l].0 == arch);
            }
        }
        proof {
            lemma_arch_max_none(pre, n, arch);
        }
        let ghost old_out = out@;
        out.push((arch, version.duplicate()));
        assert(out@.map_values(|e: (Architecture, PackageVersion)| e.0) =~= keys.push(arch));
        proof {
            assert forall|l: int| 0 <= l < out@.len() implies arch_max(post, n, (#[trigger] out@[l]).0) == Some(
                out@[l].1@,
            ) by {
                if l < old_out.len() {
                    assert(out@[l] == old_out[l]);
                    assert(old_out[l].0 != arch) by {
                        if old_out[l].0 == arch {
                            assert(keys[l] == arch);
                        }
                    }
                }
            }
        }
    }
    out
}

/// The architectures of each source and their highest versions, by
/// source name, in one pass over the binary packages.
fn maxima_map(binaries: &[BinaryPackage]) -> (r: StringHashMap<Vec<(Architecture, PackageVersion)>>)
    ensures
        forall|m: Seq<char>| #[trigger] r@.contains_key(m) ==> maxima_of(r@[m]@, binaries@, m),
        forall|m: Seq<char>| #![trigger archs_of(binaries@, m)] archs_of(binaries@, m).len() > 0 ==> r@.contains_key(m),
{
    let mut map: StringHashMap<Vec<(Architecture, PackageVersion)>> = StringHashMap::new();
    let mut i: usize = 0;
    assert(binaries@.subrange(0, 0) =~= Seq::<BinaryPackage>::empty());
    while i < binaries.len()
        invariant
            i <= binaries.len(),
            forall|m: Seq<char>| #[trigger] map@.contains_key(m) ==> maxima_of(map@[m]@, binaries@.subrange(0, i as int), m),
            forall|m: Seq<char>|
                #![trigger archs_of(binaries@.subrange(0, i as int), m)]
                archs_of(binaries@.subrange(0, i as int), m).len() > 0 ==> map@.contains_key(m),
        decreases binaries.len() - i,
    {
        let ghost pre = binaries@.subrange(0, i as int);
        let ghost post = binaries@.subrange(0, i + 1);
        assert(post.drop_last() =~= pre);
        assert(post.last() == binaries@[i as int]);
        let ghost map0 = map@;
        match entry_of(&binaries[i]) {
            Some((name, arch, version)) => {
                let updated = match map.get(name.as_str()) {
                    Some(v) => update_maxima(v, arch, version, Ghost(pre), Ghost(post), Ghost(name@)),
                    None => {
                        let empty: Vec<(Architecture, PackageVersion)> = Vec::new();
                        assert(archs_of(pre, name@).len() == 0);
                        assert(empty@.map_values(|e: (Architecture, PackageVersion)| e.0) =~= archs_of(pre, name@));
                        update_maxima(&empty, arch, version, Ghost(pre), Ghost(post), Ghost(name@))
                    },
                };
                map.insert(name.to_string(), updated);
                proof {
                    assert forall|m: Seq<char>| #[trigger] map@.contains_key(m) implies maxima_of(map@[m]@, post, m) by {
                        if m != name@ {
                            assert(archs_of(post, m) == archs_of(pre, m));
                            assert forall|a: Architecture| arch_max(post, m, a) == arch_max(pre, m, a) by {}
                            assert(map0.contains_key(m));
                        }
                    }
                    assert forall|m: Seq<char>| #![trigger archs_of(post, m)] archs_of(post, m).len() > 0 implies map@.contains_key(m) by {
                        if m != name@ {
                            assert(archs_of(post, m) == archs_of(pre, m));
                        }
                    }
                }
            },
            None => {
                proof {
                    assert forall|m: Seq<char>| #[trigger] map@.contains_key(m) implies maxima_of(map@[m]@, post, m) by {
                        assert(archs_of(post, m) == archs_of(pre, m));
                        assert forall|a: Architecture| arch_max(post, m, a) == arch_max(pre, m, a) by {}
                    }
                    assert forall|m: Seq<char>| #![trigger archs_of(post, m)] archs_of(post, m).len() > 0 implies map@.contains_key(m) by {
                        assert(archs_of(post, m) == archs_of(pre, m));
                    }
                }
            },
        }
        i = i + 1;
    }
    assert(binaries@.subrange(0, binaries.len() as int) =~= binaries@);
    map
}

/// The architectures of `n` are distinct.
proof fn lemma_keys_distinct(bins: Seq<BinaryPackage>, n: Seq<char>, l: int, k: int, keys: Seq<Architecture>)
    requires
        keys == archs_of(bins, n),
        0 <= l < keys.len(),
        0 <= k < keys.len(),
        l != k,
    ensures
        keys[l] != keys[k],
{
    lemma_archs_distinct(bins, n);
}

proof fn lemma_archs_distinct(bins: Seq<BinaryPackage>, n: Seq<char>)
    ensures
        forall|l: int, k: int|
            0 <= l < archs_of(bins, n).len() && 0 <= k < archs_of(bins, n).len() && l != k ==> archs_of(bins, n)[l]
                != archs_of(bins, n)[k],
    decreases bins.len(),
{
    if bins.len() > 0 {
        lemma_archs_distinct(bins.drop_last(), n);
        let p = archs_of(bins.drop_last(), n);
        match skew_entry(bins.last()) {
            Some(e) => {
                if e.0 == n && !p.contains(e.1) {
                    let q = p.push(e.1);
                    assert forall|l: int, k: int| 0 <= l < q.len() && 0 <= k < q.len() && l != k implies q[l] != q[k] by {
                        if l == p.len() {
                            assert(q[k] == p[k]);
                        } else if k == p.len() {
                            assert(q[l] == p[l]);
                        } else {
                            assert(q[l] == p[l] && q[k] == p[k]);
                        }
                    }
                }
            },
            None => {},
        }
    }
}


/// A source with an entry has architectures.
proof fn lemma_archs_nonempty(bins: Seq<BinaryPackage>, n: Seq<char>, i: int)
    requires
        0 <= i < bins.len(),
        skew_entry(bins[i]) matches Some(e) && e.0 == n,
    ensures
        archs_of(bins, n).len() > 0,
    decreases bins.len(),
{
    if i < bins.len() - 1 {
        assert(bins.drop_last()[i] == bins[i]);
        lemma_archs_nonempty(bins.drop_last(), n, i);
    }
}

/// A source with architectures has an entry.
proof fn lemma_archs_entry(bins: Seq<BinaryPackage>, n: Seq<char>)
    requires
        archs_of(bins, n).len() > 0,
    ensures
        exists|i: int| 0 <= i < bins.len() && #[trigger] entry_for(bins[i], n),
    decreases bins.len(),
{
    if archs_of(bins.drop_last(), n).len() > 0 {
        lemma_archs_entry(bins.drop_last(), n);
        let i = choose|i: int| 0 <= i < bins.drop_last().len() && #[trigger] entry_for(bins.drop_last()[i], n);
        assert(bins.drop_last()[i] == bins[i]);
    } else {
        assert(entry_for(bins.last(), n));
        assert(bins.last() == bins[bins.len() - 1]);
    }
}

/// Strict lexicographic order is transitive.
proof fn lemma_lex_strict_trans(a: Seq<char>, b: Seq<char>, c: Seq<char>)
    requires
        lex_order(a, b) < 0,
        lex_order(b, c) < 0,
    ensures
        lex_order(a, c) < 0,
{
    lemma_lex_order_trans(a, b, c);
    lemma_lex_order_basics(a, c);
    lemma_lex_order_basics(a, b);
    lemma_lex_order_basics(b, c);
}

/// Versions that all equal the first are all equal.
proof fn lemma_all_equal(ms: Seq<VersionModel>)
    requires
        ms.len() > 0,
        forall|k: int| 0 <= k < ms.len() ==> version_order(#[trigger] ms[k], ms[0]) == 0,
    ensures
        all_equal(ms),
{
    assert forall|i: int, j: int| 0 <= i < ms.len() && 0 <= j < ms.len() implies version_order(#[trigger] ms[i], #[trigger] ms[j]) == 0 by {
        lemma_version_order_antisym(ms[j], ms[0]);
        lemma_version_order_antisym(ms[i], ms[0]);
        lemma_version_order_trans(ms[i], ms[0], ms[j]);
        lemma_version_order_trans(ms[j], ms[0], ms[i]);
        lemma_version_order_antisym(ms[i], ms[j]);
    }
}

/// Bases that all equal the first are all equal.
proof fn lemma_same_base(ms: Seq<VersionModel>)
    requires
        ms.len() > 0,
        forall|k: int| 0 <= k < ms.len() ==> version_order(without_binnmu(#[trigger] ms[k]), without_binnmu(ms[0])) == 0,
    ensures
        same_base(ms),
{
    assert forall|i: int, j: int| 0 <= i < ms.len() && 0 <= j < ms.len() implies version_order(
        without_binnmu(#[trigger] ms[i]),
        without_binnmu(#[trigger] ms[j]),
    ) == 0 by {
        let a = without_binnmu(ms[i]);
        let b = without_binnmu(ms[j]);
        let z = without_binnmu(ms[0]);
        lemma_version_order_antisym(b, z);
        lemma_version_order_antisym(a, z);
        lemma_version_order_trans(a, z, b);
        lemma_version_order_trans(b, z, a);
        lemma_version_order_antisym(a, b);
    }
}

/// The rebuild of a skewed source, from its architectures and their
/// highest versions.
fn skew_rebuild(
    binaries: &[BinaryPackage],
    n: &PackageName,
    maxima: &Vec<(Architecture, PackageVersion)>,
) -> (r: (PackageVersion, Vec<Architecture>))
    requires
        maxima@.len() > 0,
        maxima@.map_values(|e: (Architecture, PackageVersion)| e.0) == archs_of(binaries@, n@),
        forall|k: int| 0 <= k < maxima@.len() ==> arch_max(binaries@, n@, (#[trigger] maxima@[k]).0) == Some(maxima@[k].1@),
    ensures
        (r.0@, r.1@) == skew_of(binaries@, n@),
{
    let ghost archs = archs_of(binaries@, n@);
    let ghost ms = arch_maxima(binaries@, n@);
    assert forall|k: int| 0 <= k < maxima@.len() implies #[trigger] ms[k] == maxima@[k].1@ by {
        assert(archs[k] == maxima@[k].0);
    }
    let mut m: usize = 0;
    let mut k: usize = 1;
    assert(ms.subrange(0, 1).len() == 1);
    while k < maxima.len()
        invariant
            1 <= k <= maxima.len(),
            m < maxima.len(),
            ms.len() == maxima@.len(),
            forall|l: int| 0 <= l < maxima@.len() ==> #[trigger] ms[l] == maxima@[l].1@,
            maxima@[m as int].1@ == first_highest(ms.subrange(0, k as int)),
        decreases maxima.len() - k,
    {
        let ghost pre = ms.subrange(0, k as int);
        let ghost post = ms.subrange(0, k + 1);
        assert(post.drop_last() =~= pre);
        assert(post.last() == ms[k as int]);
        if maxima[k].1.order(&maxima[m].1) > 0 {
            m = k;
        }
        k = k + 1;
    }
    assert(ms.subrange(0, maxima.len() as int) =~= ms);
    let ghost v = maxima@[m as int].1@;
    let mut lag: Vec<Architecture> = Vec::new();
    let mut l: usize = 0;
    assert(archs.subrange(0, 0) =~= Seq::<Architecture>::empty());
    while l < maxima.len()
        invariant
            l <= maxima.len(),
            m < maxima.len(),
            v == maxima@[m as int].1@,
            archs == maxima@.map_values(|e: (Architecture, PackageVersion)| e.0),
            archs == archs_of(binaries@, n@),
            forall|t: int| 0 <= t < maxima@.len() ==> arch_max(binaries@, n@, (#[trigger] maxima@[t]).0) == Some(maxima@[t].1@),
            lag@ == lagging(archs.subrange(0, l as int), binaries@, n@, v),
        decreases maxima.len() - l,
    {
        let ghost pre = archs.subrange(0, l as int);
        let ghost post = archs.subrange(0, l + 1);
        assert(post.drop_last() =~= pre);
        assert(post.last() == maxima@[l as int].0);
        if maxima[l].1.order(&maxima[m].1) != 0 {
            lag.push(maxima[l].0);
        }
        l = l + 1;
    }
    assert(archs.subrange(0, maxima.len() as int) =~= archs);
    (maxima[m].1.duplicate(), lag)
}

/// Version skew of `Multi-Arch: same` packages: for each source (sorted
/// by name) whose highest versions differ between architectures only in
/// their binNMU parts, and which has no bugs that make it fail to build,
/// the highest version and the architectures that lag behind.
pub fn load_version_skew(binaries: &[BinaryPackage], ftbfs_bugs: &UDDBugs) -> (r: Vec<
    (PackageName, PackageVersion, Vec<Architecture>),
>)
    ensures
        version_skew_of(r@.map_values(|e: (PackageName, PackageVersion, Vec<Architecture>)| skew_view(e)), binaries@, ftbfs_bugs@),
{
    let ghost bins = binaries@;
    // the sources, sorted by name
    let mut names: Vec<PackageName> = Vec::new();
    let mut i: usize = 0;
    while i < binaries.len()
        invariant
            i <= binaries.len(),
            bins == binaries@,
            forall|a: int, b: int| 0 <= a < b < names@.len() ==> lex_order((#[trigger] names@[a])@, (#[trigger] names@[b])@) < 0,
            forall|a: int| 0 <= a < names@.len() ==> archs_of(bins, (#[trigger] names@[a])@).len() > 0,
            forall|t: int| 0 <= t < i && (#[trigger] skew_entry(bins[t])) is Some ==> exists|a: int|
                0 <= a < names@.len() && names@[a]@ == (skew_entry(bins[t])->0).0,
        decreases binaries.len() - i,
    {
        match entry_of(&binaries[i]) {
            Some((name, _, _)) => {
                proof {
                    lemma_archs_nonempty(bins, name@, i as int);
                }
                let mut pos: usize = 0;
                while pos < names.len() && names[pos].order(name) < 0
                    invariant
                        pos <= names.len(),
                        forall|a: int| 0 <= a < pos ==> lex_order((#[trigger] names@[a])@, name@) < 0,
                    decreases names.len() - pos,
                {
                    pos = pos + 1;
                }
                if pos < names.len() && names[pos].order(name) == 0 {
                    proof {
                        lemma_lex_order_basics(names@[pos as int]@, name@);
                    }
                } else {
                    let ghost old_names = names@;
                    proof {
                        if pos < names.len() {
                            lemma_lex_order_basics(names@[pos as int]@, name@);
                        }
                    }
                    names.insert(pos, name.duplicate());
                    proof {
                        assert(names@ =~= old_names.insert(pos as int, names@[pos as int]));
                        assert forall|a: int, b: int| 0 <= a < b < names@.len() implies lex_order(
                            (#[trigger] names@[a])@,
                            (#[trigger] names@[b])@,
                        ) < 0 by {
                            if b < pos {
                                assert(names@[a] == old_names[a] && names@[b] == old_names[b]);
                            } else if b == pos {
                                assert(names@[a] == old_names[a]);
                            } else if a < pos {
                                assert(names@[a] == old_names[a] && names@[b] == old_names[b - 1]);
                                lemma_lex_order_basics(old_names[pos as int]@, name@);
                                if b - 1 > pos {
                                    lemma_lex_strict_trans(name@, old_names[pos as int]@, old_names[b - 1]@);
                                }
                                lemma_lex_strict_trans(old_names[a]@, name@, old_names[b - 1]@);
                            } else if a == pos {
                                assert(names@[b] == old_names[b - 1]);
                                if b - 1 > pos {
                                    lemma_lex_strict_trans(name@, old_names[pos as int]@, old_names[b - 1]@);
                                }
                            } else {
                                assert(names@[a] == old_names[a - 1] && names@[b] == old_names[b - 1]);
                            }
                        }
                        assert forall|a: int| 0 <= a < names@.len() implies archs_of(bins, (#[trigger] names@[a])@).len() > 0 by {
                            if a < pos {
                                assert(names@[a] == old_names[a]);
                            } else if a > pos {
                                assert(names@[a] == old_names[a - 1]);
                            }
                        }
                        assert forall|t: int| 0 <= t < i && (#[trigger] skew_entry(bins[t])) is Some implies exists|a: int|
                            0 <= a < names@.len() && names@[a]@ == (skew_entry(bins[t])->0).0 by {
                            let a = choose|a: int| 0 <= a < old_names.len() && old_names[a]@ == (skew_entry(bins[t])->0).0;
                            if a < pos {
                                assert(names@[a] == old_names[a]);
                            } else {
                                assert(names@[a + 1] == old_names[a]);
                            }
                        }
                    }
                }
                assert(names@[pos as int]@ == name@);
            },
            None => {},
        }
        i = i + 1;
    }
    // the highest versions of each source on each architecture
    let maxima_by_source = maxima_map(binaries);
    // the rebuilds
    let mut out: Vec<(PackageName, PackageVersion, Vec<Architecture>)> = Vec::new();
    let mut k: usize = 0;
    while k < names.len()
        invariant
            k <= names.len(),
            bins == binaries@,
            forall|m: Seq<char>| #[trigger] maxima_by_source@.contains_key(m) ==> maxima_of(
                maxima_by_source@[m]@,
                binaries@,
                m,
            ),
            forall|m: Seq<char>|
                #![trigger archs_of(binaries@, m)]
                archs_of(binaries@, m).len() > 0 ==> maxima_by_source@.contains_key(m),
            forall|a: int, b: int| 0 <= a < b < names@.len() ==> lex_order((#[trigger] names@[a])@, (#[trigger] names@[b])@) < 0,
            forall|a: int| 0 <= a < names@.len() ==> archs_of(bins, (#[trigger] names@[a])@).len() > 0,
            forall|a: int, b: int| 0 <= a < b < out@.len() ==> lex_order((#[trigger] out@[a]).0@, (#[trigger] out@[b]).0@) < 0,
            k < names.len() ==> forall|a: int| 0 <= a < out@.len() ==> lex_order((#[trigger] out@[a]).0@, names@[k as int]@) < 0,
            forall|a: int|
                0 <= a < out@.len() ==> skewed(bins, ftbfs_bugs@, (#[trigger] out@[a]).0@) && (out@[a].1@, out@[a].2@)
                    == skew_of(bins, out@[a].0@),
            forall|b: int| 0 <= b < k && skewed(bins, ftbfs_bugs@, (#[trigger] names@[b])@) ==> exists|a: int|
                0 <= a < out@.len() && out@[a].0@ == names@[b]@,
        decreases names.len() - k,
    {
        let n = &names[k];
        proof {
            assert(archs_of(bins, n@).len() > 0);
        }
        let maxima = maxima_by_source.get(n.as_str()).unwrap();
        let ghost ms = arch_maxima(bins, n@);
        let ghost archs = archs_of(bins, n@);
        assert(maxima@.len() == archs.len());
        assert forall|l: int| 0 <= l < maxima@.len() implies #[trigger] ms[l] == maxima@[l].1@ by {
            assert(archs[l] == maxima@[l].0);
        }
        // in sync?
        let mut equal = true;
        let mut base = true;
        let base0 = maxima[0].1.clone_without_binnmu_version();
        let mut l: usize = 0;
        while l < maxima.len()
            invariant
                l <= maxima.len(),
                maxima@.len() > 0,
                ms.len() == maxima@.len(),
                forall|t: int| 0 <= t < maxima@.len() ==> #[trigger] ms[t] == maxima@[t].1@,
                base0@ == without_binnmu(ms[0]),
                equal ==> forall|t: int| 0 <= t < l ==> version_order(#[trigger] ms[t], ms[0]) == 0,
                !equal ==> exists|t: int| 0 <= t < l && version_order(#[trigger] ms[t], ms[0]) != 0,
                base ==> forall|t: int| 0 <= t < l ==> version_order(without_binnmu(#[trigger] ms[t]), without_binnmu(ms[0])) == 0,
                !base ==> exists|t: int| 0 <= t < l && version_order(without_binnmu(#[trigger] ms[t]), without_binnmu(ms[0])) != 0,
            decreases maxima.len() - l,
        {
            assert(ms[l as int] == maxima@[l as int].1@);
            assert(ms[0] == maxima@[0].1@);
            if maxima[l].1.order(&maxima[0].1) != 0 {
                equal = false;
            }
            if maxima[l].1.clone_without_binnmu_version().order(&base0) != 0 {
                base = false;
            }
            l = l + 1;
        }
        proof {
            if equal {
                lemma_all_equal(ms);
            } else {
                let t = choose|t: int| 0 <= t < ms.len() && version_order(#[trigger] ms[t], ms[0]) != 0;
                assert(!all_equal(ms));
            }
            if base {
                lemma_same_base(ms);
            } else {
                let t = choose|t: int| 0 <= t < ms.len() && version_order(without_binnmu(#[trigger] ms[t]), without_binnmu(ms[0])) != 0;
                assert(!same_base(ms));
            }
        }
        let ghost old_out = out@;
        if !equal && base && ftbfs_bugs.bugs_for_source(n.as_str()).is_none() {
            let (version, lag) = skew_rebuild(binaries, n, maxima);
            out.push((n.duplicate(), version, lag));
            proof {
                assert(skewed(bins, ftbfs_bugs@, n@));
                assert forall|a: int, b: int| 0 <= a < b < out@.len() implies lex_order((#[trigger] out@[a]).0@, (#[trigger] out@[b]).0@) < 0 by {
                    assert(out@[a] == old_out[a]);
                    if b < old_out.len() {
                        assert(out@[b] == old_out[b]);
                    }
                }
            }
        }
        proof {
            assert(out@.len() > old_out.len() ==> out@[old_out.len() as int].0@ == n@);
            assert forall|a: int| 0 <= a < out@.len() implies skewed(bins, ftbfs_bugs@, (#[trigger] out@[a]).0@) && (
            out@[a].1@, out@[a].2@) == skew_of(bins, out@[a].0@) by {
                if a < old_out.len() {
                    assert(out@[a] == old_out[a]);
                }
            }
            assert forall|b: int| 0 <= b < k + 1 && skewed(bins, ftbfs_bugs@, (#[trigger] names@[b])@) implies exists|a: int|
                0 <= a < out@.len() && out@[a].0@ == names@[b]@ by {
                if b < k {
                    let a = choose|a: int| 0 <= a < old_out.len() && old_out[a].0@ == names@[b]@;
                    assert(out@[a] == old_out[a]);
                } else {
                    assert(out@.len() > old_out.len());
                    assert(out@[old_out.len() as int].0@ == names@[b]@);
                }
            }
            if k + 1 < names.len() {
                assert forall|a: int| 0 <= a < out@.len() implies lex_order((#[trigger] out@[a]).0@, names@[k + 1]@) < 0 by {
                    if a < old_out.len() {
                        assert(out@[a] == old_out[a]);
                        lemma_lex_strict_trans(old_out[a].0@, names@[k as int]@, names@[k + 1]@);
                    } else {
                        assert(out@[a].0@ == names@[k as int]@);
                    }
                }
            }
        }
        k = k + 1;
    }
    proof {
        let r = out@.map_values(|e: (PackageName, PackageVersion, Vec<Architecture>)| skew_view(e));
        assert forall|x: Seq<char>| #[trigger] skewed(bins, ftbfs_bugs@, x) implies exists|a: int| 0 <= a < r.len() && r[a].0 == x by {
            lemma_archs_entry(bins, x);
            let t = choose|t: int| 0 <= t < bins.len() && #[trigger] entry_for(bins[t], x);
            let b = choose|b: int| 0 <= b < names@.len() && names@[b]@ == (skew_entry(bins[t])->0).0;
            let a = choose|a: int| 0 <= a < out@.len() && out@[a].0@ == names@[b]@;
            assert(r[a] == skew_view(out@[a]));
        }
        assert forall|a: int, b: int| 0 <= a < b < r.len() implies lex_order((#[trigger] r[a]).0, (#[trigger] r[b]).0) < 0 by {
            assert(r[a] == skew_view(out@[a]) && r[b] == skew_view(out@[b]));
        }
        assert forall|a: int| 0 <= a < r.len() implies skewed(bins, ftbfs_bugs@, (#[trigger] r[a]).0) && (r[a].1, r[a].2)
            == skew_of(bins, r[a].0) by {
            assert(r[a] == skew_view(out@[a]));
        }
    }
    out
}


/// The rebuild that syncs the binNMU versions of a source: on the
/// lagging architectures of the suite, with the binNMU number of the
/// highest version.
pub open spec fn sync_binnmu(
    source: Seq<char>,
    version: VersionModel,
    archs: Seq<Architecture>,
    suite: SuiteOrCodename,
    build_priority: i32,
) -> BinNMUModel {
    BinNMUModel {
        source: SourceModel {
            source,
            version: Some(version_text(without_binnmu(version))),
            architectures: archs.map_values(|a: Architecture| WBArchitecture::Architecture(a)),
            suite: Some(suite_or_codename_text(suite)),
        },
        message: "Rebuild to sync binNMU versions"@,
        nmu_version: binnmu_of(version),
        extra_depends: None,
        priority: Some(build_priority),
        dep_wait: None,
    }
}

/// The `wb` command that syncs the binNMU versions of a source: an error
/// where an architecture cannot be rebuilt, `None` where the version has
/// no binNMU part.
pub fn version_skew_command(
    source: &PackageName,
    version: &PackageVersion,
    architectures: &Vec<Architecture>,
    suite: SuiteOrCodename,
    build_priority: i32,
) -> (r: Result<Option<WBCommand>, Error>)
    ensures
        ({
            let archs = architectures@.map_values(|a: Architecture| WBArchitecture::Architecture(a));
            match first_bad_architecture(archs, true) {
                Some(a) => r matches Err(Error::InvalidArchitecture(b, c)) && a == b && c@ == "nmu"@,
                None => match binnmu_of(version@) {
                    None => r matches Ok(None),
                    Some(_) => r matches Ok(Some(c)) && c@ == binnmu_text(
                        sync_binnmu(source@, version@, architectures@, suite, build_priority),
                    ),
                },
            }
        }),
{
    let suite_text = suite.to_string();
    let base = version.clone_without_binnmu_version();
    let base_text = base.to_string();
    let mut spec = SourceSpecifier::new(source.as_str());
    spec.with_suite(suite_text.as_str());
    spec.with_archive_architectures(architectures.as_slice());
    spec.with_version(base_text.as_str());
    assert(spec@.architectures =~= architectures@.map_values(|a: Architecture| WBArchitecture::Architecture(a)));
    let mut binnmu = match BinNMU::new(&spec, "Rebuild to sync binNMU versions") {
        Ok(b) => b,
        Err(e) => return Err(e),
    };
    binnmu.with_build_priority(build_priority);
    let number = match version.binnmu_version() {
        Some(v) => v,
        None => return Ok(None),
    };
    binnmu.with_nmu_version(number);
    let c = binnmu.build();
    proof {
        reveal_strlit("Rebuild to sync binNMU versions");
    }
    assert(binnmu@ == sync_binnmu(source@, version@, architectures@, suite, build_priority));
    Ok(Some(c))
}

} // verus!
