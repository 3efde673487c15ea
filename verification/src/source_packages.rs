//! Source packages as the binary packages of an archive describe them:
//! the highest version of each source and whether it builds a
//! `Multi-Arch: same` binary package.

use vstd::prelude::*;
use vstd::hash_map::StringHashMap;

use crate::archive::MultiArch;
use crate::package::{name_char_ok, name_error, PackageName, VersionedPackage};
use crate::text::{
    chars_of, find_char, has_prefix, has_suffix, lemma_first_index, lemma_first_index_unique, split_once, string_of,
};
use crate::version::{
    lemma_version_order_antisym, lemma_version_order_refl, lemma_version_order_trans,
    lemma_version_text_parse, parse_version, version_order, version_text, without_binnmu, PackageVersion,
    VersionModel,
};

verus! {

/// Source package name with optional version in parenthesis
#[derive(Debug)]
pub struct SourceWithVersion {
    pub source: PackageName,
    pub version: Option<PackageVersion>,
}

/// What a `Source` field holds: `source` or `source (version)`, where the
/// name is valid and the version parses.
pub open spec fn parse_source_with_version(s: Seq<char>) -> Option<(Seq<char>, Option<VersionModel>)> {
    match split_once(s, ' ') {
        Some(p) => {
            let v = p.1;
            if !(has_prefix(v, "("@) && has_suffix(v, ")"@)) {
                None
            } else {
                match parse_version(v.subrange(1, v.len() - 1)) {
                    Ok(m) => if name_error(p.0) is None {
                        Some((p.0, Some(m)))
                    } else {
                        None
                    },
                    Err(_) => None,
                }
            }
        },
        None => if name_error(s) is None {
            Some((s, None))
        } else {
            None
        },
    }
}

/// A source with its version as text: `source (version)`, or the source
/// alone.
pub open spec fn source_with_version_text(m: (Seq<char>, Option<VersionModel>)) -> Seq<char> {
    match m.1 {
        Some(v) => m.0 + " ("@ + version_text(v) + ")"@,
        None => m.0,
    }
}

/// A source with its version, written as text and read back, is what was
/// written (as far as a version reads back what it writes).
pub proof fn lemma_source_with_version_roundtrip(name: Seq<char>, version: Option<VersionModel>)
    requires
        name_error(name) is None,
        version matches Some(v) ==> v.valid(),
    ensures
        parse_source_with_version(source_with_version_text((name, version))) == Some((name, version)),
{
    reveal_strlit(" (");
    reveal_strlit(")");
    reveal_strlit("(");
    assert forall|j: int| 0 <= j < name.len() implies name[j] != ' ' by {
        assert(name_char_ok(name[j], j));
    }
    match version {
        None => {
            lemma_first_index_unique(name, ' ', name.len() as int);
        },
        Some(v) => {
            let vt = version_text(v);
            let t = name + " ("@ + vt + ")"@;
            assert(t[name.len() as int] == ' ');
            assert forall|j: int| 0 <= j < name.len() implies t[j] != ' ' by {
                assert(t[j] == name[j]);
            }
            lemma_first_index_unique(t, ' ', name.len() as int);
            let rest = t.subrange(name.len() as int + 1, t.len() as int);
            assert(t.subrange(0, name.len() as int) =~= name);
            assert(rest =~= "("@ + vt + ")"@);
            assert(rest.subrange(0, 1) =~= "("@);
            assert(rest.subrange(rest.len() - 1, rest.len() as int) =~= ")"@);
            assert(rest.subrange(1, rest.len() - 1) =~= vt);
            lemma_version_text_parse(v);
        },
    }
}

impl SourceWithVersion {
    /// The view: the name and the optional version.
    pub open spec fn model(&self) -> (Seq<char>, Option<VersionModel>) {
        (
            self.source@,
            match self.version {
                Some(v) => Some(v@),
                None => None,
            },
        )
    }

    /// Parses `source` or `source (version)`; `None` where the text is
    /// neither.
    pub fn parse(value: &str) -> (r: Option<Self>)
        ensures
            match parse_source_with_version(value@) {
                Some(m) => r matches Some(x) && x.model() == m,
                None => r is None,
            },
    {
        proof {
            reveal_strlit("(");
            reveal_strlit(")");
        }
        let v = chars_of(value);
        let sp = find_char(&v, ' ');
        proof {
            lemma_first_index(v@, ' ');
        }
        if sp == v.len() {
            return match PackageName::try_from(value) {
                Ok(name) => Some(SourceWithVersion { source: name, version: None }),
                Err(_) => None,
            };
        }
        let name = string_of(&v, 0, sp);
        let ghost rest = v@.subrange(sp + 1, v@.len() as int);
        let n = v.len();
        if !(n - sp > 2 && v[sp + 1] == '(' && v[n - 1] == ')') {
            proof {
                if has_prefix(rest, "("@) && has_suffix(rest, ")"@) {
                    assert(rest.subrange(0, 1)[0] == rest[0]);
                    assert(rest.subrange(rest.len() - 1, rest.len() as int)[0] == rest[rest.len() - 1]);
                    assert(rest[0] == '(');
                    assert(rest[rest.len() - 1] == ')');
                }
            }
            return None;
        }
        proof {
            assert(rest.subrange(0, 1) =~= "("@);
            assert(rest.subrange(rest.len() - 1, rest.len() as int) =~= ")"@);
        }
        let inner = string_of(&v, sp + 2, n - 1);
        assert(inner@ =~= rest.subrange(1, rest.len() - 1));
        let version = match PackageVersion::try_from(inner.as_str()) {
            Ok(x) => x,
            Err(_) => return None,
        };
        match PackageName::try_from_string(name) {
            Ok(source) => Some(SourceWithVersion { source, version: Some(version) }),
            Err(_) => None,
        }
    }

    /// The text: `source` or `source (version)`.
    pub fn to_string(&self) -> (r: String)
        ensures
            r@ == source_with_version_text(self.model()),
    {
        let mut s = self.source.to_string();
        if let Some(v) = &self.version {
            s.append(" (");
            let t = v.to_string();
            s.append(t.as_str());
            s.append(")");
        }
        s
    }
}

/// A binary package as a `Packages` file lists it.
#[derive(Debug)]
pub struct BinaryPackage {
    pub source: Option<SourceWithVersion>,
    pub package: PackageName,
    pub version: PackageVersion,
    pub multi_arch: Option<MultiArch>,
}

/// The name of the source package that built a binary package.
pub open spec fn binary_source(b: BinaryPackage) -> Seq<char> {
    match b.source {
        Some(s) => s.source@,
        None => b.package@,
    }
}

/// The version of the source package that built a binary package: the
/// one given in `Source`, else the binary version without a binNMU part.
pub open spec fn binary_source_version(b: BinaryPackage) -> VersionModel {
    match b.source {
        Some(s) => match s.version {
            Some(v) => v@,
            None => without_binnmu(b.version@),
        },
        None => without_binnmu(b.version@),
    }
}

impl BinaryPackage {
    /// The source package and its version.
    pub fn name_and_version(&self) -> (r: (&PackageName, PackageVersion))
        ensures
            r.0@ == binary_source(*self),
            r.1@ == binary_source_version(*self),
    {
        if let Some(source_package) = &self.source {
            (
                &source_package.source,
                match &source_package.version {
                    Some(v) => v.duplicate(),
                    None => self.version.clone_without_binnmu_version(),
                },
            )
        } else {
            (&self.package, self.version.clone_without_binnmu_version())
        }
    }

    /// The source package with its version.
    pub fn source_package(&self) -> (r: VersionedPackage)
        ensures
            r@ == (binary_source(*self), binary_source_version(*self)),
    {
        let (name, version) = self.name_and_version();
        VersionedPackage { package: name.duplicate(), version }
    }

    /// The binary package is `Multi-Arch: same`.
    pub fn is_ma_same(&self) -> (r: bool)
        ensures
            r == (self.multi_arch == Some(MultiArch::Same)),
    {
        match self.multi_arch {
            Some(MultiArch::Same) => true,
            _ => false,
        }
    }
}

/// A source package as a `Sources` file lists it.
#[derive(Debug)]
pub struct SourcePackage {
    pub package: PackageName,
    pub version: PackageVersion,
    /// The stanza is only kept for another package's sake
    /// (`Extra-Source-Only: yes`).
    pub extra_source_only: bool,
}

/// What is recorded of a source package.
#[derive(Debug)]
pub struct SourcePackageInfo {
    pub ma_same: bool,
    pub version: PackageVersion,
}

/// A sighting of a source package: its name, a version and whether the
/// sighting was a `Multi-Arch: same` binary package.
pub type Sighting = (Seq<char>, VersionModel, bool);

/// The sightings that the binary packages give.
pub open spec fn binary_sightings(bins: Seq<BinaryPackage>) -> Seq<Sighting> {
    bins.map_values(
        |b: BinaryPackage|
            (binary_source(b), binary_source_version(b), b.multi_arch == Some(MultiArch::Same)),
    )
}

/// The sightings that the source packages give: one for each, but for
/// those only kept for another package's sake (`Extra-Source-Only: yes`),
/// which give none.
pub open spec fn source_sightings(srcs: Seq<SourcePackage>) -> Seq<Sighting>
    decreases srcs.len(),
{
    if srcs.len() == 0 {
        Seq::empty()
    } else {
        let before = source_sightings(srcs.drop_last());
        let s = srcs.last();
        if s.extra_source_only {
            before
        } else {
            before.push((s.package@, s.version@, false))
        }
    }
}

/// `m` records the sightings `c`: each sighted name, with a version that
/// was sighted for it and that no sighting of it exceeds, and whether any
/// sighting of it was `Multi-Arch: same`.
pub open spec fn records(m: Map<Seq<char>, (bool, VersionModel)>, c: Seq<Sighting>) -> bool {
    &&& forall|n: Seq<char>| #[trigger]
        m.contains_key(n) <==> exists|i: int| 0 <= i < c.len() && (#[trigger] c[i]).0 == n
    &&& forall|n: Seq<char>| #[trigger]
        m.contains_key(n) ==> (m[n].0 <==> exists|i: int|
            0 <= i < c.len() && (#[trigger] c[i]).0 == n && c[i].2)
    &&& forall|n: Seq<char>| #[trigger]
        m.contains_key(n) ==> exists|i: int|
            0 <= i < c.len() && (#[trigger] c[i]).0 == n && c[i].1 == m[n].1
    &&& forall|i: int|
        0 <= i < c.len() ==> version_order(#[trigger] c[i].1, m[c[i].0].1) <= 0
}

/// Source packages by name: whether one of its binaries is
/// `Multi-Arch: same`, and its highest version.
pub struct SourcePackages(StringHashMap<SourcePackageInfo>);

/// What is recorded of each source package, as values.
pub open spec fn info_map(m: Map<Seq<char>, SourcePackageInfo>) -> Map<Seq<char>, (bool, VersionModel)> {
    m.map_values(|i: SourcePackageInfo| (i.ma_same, i.version@))
}

impl View for SourcePackages {
    type V = Map<Seq<char>, (bool, VersionModel)>;

    closed spec fn view(&self) -> Map<Seq<char>, (bool, VersionModel)> {
        info_map(self.0@)
    }
}

/// Each sighting of source packages comes from a stanza that is not
/// `Extra-Source-Only: yes`, with its name and version.
pub proof fn lemma_source_sighting_origin(srcs: Seq<SourcePackage>, i: int)
    requires
        0 <= i < source_sightings(srcs).len(),
    ensures
        exists|j: int|
            0 <= j < srcs.len() && !(#[trigger] srcs[j]).extra_source_only
                && srcs[j].package@ == source_sightings(srcs)[i].0
                && srcs[j].version@ == source_sightings(srcs)[i].1,
    decreases srcs.len(),
{
    let before = source_sightings(srcs.drop_last());
    if i < before.len() {
        lemma_source_sighting_origin(srcs.drop_last(), i);
        let j = choose|j: int|
            0 <= j < srcs.drop_last().len() && !(#[trigger] srcs.drop_last()[j]).extra_source_only
                && srcs.drop_last()[j].package@ == before[i].0
                && srcs.drop_last()[j].version@ == before[i].1;
        assert(srcs[j] == srcs.drop_last()[j]);
    } else {
        assert(srcs[srcs.len() - 1] == srcs.last());
    }
}

/// A source package of which every stanza is `Extra-Source-Only: yes`, and
/// which no binary package names as its source, has no recorded version:
/// whatever was built against it counts as outdated.
pub proof fn lemma_only_extra_source_unrecorded(
    m: Map<Seq<char>, (bool, VersionModel)>,
    srcs: Seq<SourcePackage>,
    bins: Seq<BinaryPackage>,
    n: Seq<char>,
)
    requires
        records(m, source_sightings(srcs) + binary_sightings(bins)),
        forall|j: int| 0 <= j < srcs.len() && (#[trigger] srcs[j]).package@ == n ==> srcs[j].extra_source_only,
        forall|k: int| 0 <= k < bins.len() ==> binary_source(#[trigger] bins[k]) != n,
    ensures
        !m.contains_key(n),
{
    let c = source_sightings(srcs) + binary_sightings(bins);
    let s = source_sightings(srcs);
    if m.contains_key(n) {
        let i = choose|i: int| 0 <= i < c.len() && (#[trigger] c[i]).0 == n;
        if i < s.len() {
            assert(c[i] == s[i]);
            lemma_source_sighting_origin(srcs, i);
        } else {
            let k = i - s.len();
            assert(c[i] == binary_sightings(bins)[k]);
            assert(binary_source(bins[k]) != n);
        }
    }
}

/// Recording one more sighting keeps the record.
proof fn lemma_records_step(
    m: Map<Seq<char>, (bool, VersionModel)>,
    c: Seq<Sighting>,
    x: Sighting,
    m2: Map<Seq<char>, (bool, VersionModel)>,
)
    requires
        records(m, c),
        m2 == (if m.contains_key(x.0) {
            m.insert(
                x.0,
                (
                    m[x.0].0 || x.2,
                    if version_order(x.1, m[x.0].1) > 0 {
                        x.1
                    } else {
                        m[x.0].1
                    },
                ),
            )
        } else {
            m.insert(x.0, (x.2, x.1))
        }),
    ensures
        records(m2, c.push(x)),
{
    let c2 = c.push(x);
    assert(c2[c.len() as int] == x);
    assert forall|i: int| 0 <= i < c.len() implies c2[i] == c[i] by {}
    assert forall|n: Seq<char>| #[trigger]
        m2.contains_key(n) <==> exists|i: int| 0 <= i < c2.len() && (#[trigger] c2[i]).0 == n by {
        if m.contains_key(n) {
            let i = choose|i: int| 0 <= i < c.len() && (#[trigger] c[i]).0 == n;
            assert(c2[i] == c[i]);
        }
        if exists|i: int| 0 <= i < c2.len() && (#[trigger] c2[i]).0 == n {
            let i = choose|i: int| 0 <= i < c2.len() && (#[trigger] c2[i]).0 == n;
            if i < c.len() {
                assert(c2[i] == c[i]);
            }
        }
    }
    assert forall|n: Seq<char>| #[trigger] m2.contains_key(n) implies (m2[n].0 <==> exists|i: int|
        0 <= i < c2.len() && (#[trigger] c2[i]).0 == n && c2[i].2) by {
        if exists|i: int| 0 <= i < c2.len() && (#[trigger] c2[i]).0 == n && c2[i].2 {
            let i = choose|i: int| 0 <= i < c2.len() && (#[trigger] c2[i]).0 == n && c2[i].2;
            if i < c.len() {
                assert(c2[i] == c[i]);
            }
        }
        if m.contains_key(n) && m[n].0 {
            let i = choose|i: int| 0 <= i < c.len() && (#[trigger] c[i]).0 == n && c[i].2;
            assert(c2[i] == c[i]);
        }
    }
    assert forall|n: Seq<char>| #[trigger] m2.contains_key(n) implies exists|i: int|
        0 <= i < c2.len() && (#[trigger] c2[i]).0 == n && c2[i].1 == m2[n].1 by {
        if n == x.0 && (!m.contains_key(n) || version_order(x.1, m[x.0].1) > 0) {
            assert(c2[c.len() as int].0 == n);
        } else {
            let i = choose|i: int| 0 <= i < c.len() && (#[trigger] c[i]).0 == n && c[i].1 == m[n].1;
            assert(c2[i] == c[i]);
        }
    }
    assert forall|i: int| 0 <= i < c2.len() implies version_order(#[trigger] c2[i].1, m2[c2[i].0].1) <= 0 by {
        if i < c.len() {
            assert(c2[i] == c[i]);
            let n = c[i].0;
            if n == x.0 && version_order(x.1, m[x.0].1) > 0 {
                lemma_version_order_antisym(x.1, m[n].1);
                lemma_version_order_trans(c[i].1, m[n].1, x.1);
            }
        } else {
            if m.contains_key(x.0) && version_order(x.1, m[x.0].1) > 0 {
                lemma_version_order_refl(x.1);
            } else if m.contains_key(x.0) {
            } else {
                lemma_version_order_refl(x.1);
            }
        }
    }
}

/// Records a sighting of a source package: a new name is added, a
/// known one keeps the higher version and learns `Multi-Arch: same`.
fn record(m: &mut StringHashMap<SourcePackageInfo>, name: &PackageName, version: PackageVersion, ma_same: bool)
    ensures
        info_map(final(m)@) == (if info_map(old(m)@).contains_key(name@) {
            info_map(old(m)@).insert(
                name@,
                (
                    info_map(old(m)@)[name@].0 || ma_same,
                    if version_order(version@, info_map(old(m)@)[name@].1) > 0 {
                        version@
                    } else {
                        info_map(old(m)@)[name@].1
                    },
                ),
            )
        } else {
            info_map(old(m)@).insert(name@, (ma_same, version@))
        }),
{
    let ghost m0 = m@;
    let key = name.to_string();
    let info = match m.get(name.as_str()) {
        Some(known) => {
            let newer = version.order(&known.version) > 0;
            SourcePackageInfo {
                ma_same: known.ma_same || ma_same,
                version: if newer {
                    version
                } else {
                    known.version.duplicate()
                },
            }
        },
        None => SourcePackageInfo { ma_same, version },
    };
    let ghost entry = (info.ma_same, info.version@);
    m.insert(key, info);
    assert(info_map(m@) =~= info_map(m0).insert(name@, entry));
}

/// Records the source packages of binary packages.
fn add_binaries(v: &mut StringHashMap<SourcePackageInfo>, binaries: &[BinaryPackage], Ghost(before): Ghost<Seq<Sighting>>)
    requires
        records(info_map(old(v)@), before),
    ensures
        records(info_map(final(v)@), before + binary_sightings(binaries@)),
{
    let ghost all = binary_sightings(binaries@);
    let mut i: usize = 0;
    assert(before + all.subrange(0, 0) =~= before);
    while i < binaries.len()
        invariant
            i <= binaries.len(),
            all == binary_sightings(binaries@),
            records(info_map(v@), before + all.subrange(0, i as int)),
        decreases binaries.len() - i,
    {
        let b = &binaries[i];
        let (source, version) = b.name_and_version();
        let same = b.is_ma_same();
        let ghost m = info_map(v@);
        let ghost x = all[i as int];
        assert(x == (source@, version@, same));
        record(v, source, version, same);
        proof {
            lemma_records_step(m, before + all.subrange(0, i as int), x, info_map(v@));
            assert(before + all.subrange(0, i + 1) =~= (before + all.subrange(0, i as int)).push(x));
        }
        i = i + 1;
    }
    assert(all.subrange(0, binaries.len() as int) =~= all);
}

impl SourcePackages {
    /// Extract source package information from binary packages
    ///
    /// This step needs to be performed from binary packages to check whether a
    /// source package builds MA: same binary packages.
    pub fn new(binaries: &[BinaryPackage]) -> (r: Self)
        ensures
            records(r@, binary_sightings(binaries@)),
    {
        let mut v: StringHashMap<SourcePackageInfo> = StringHashMap::new();
        assert(info_map(v@) =~= Map::<Seq<char>, (bool, VersionModel)>::empty());
        add_binaries(&mut v, binaries, Ghost(Seq::empty()));
        assert(Seq::<Sighting>::empty() + binary_sightings(binaries@) =~= binary_sightings(binaries@));
        SourcePackages(v)
    }

    /// Extract source package information from source and binary packages
    ///
    /// The versions come from both; whether a source package builds MA: same
    /// binary packages comes from the binary packages.
    pub fn new_with_source(sources: &[SourcePackage], binaries: &[BinaryPackage]) -> (r: Self)
        ensures
            records(r@, source_sightings(sources@) + binary_sightings(binaries@)),
    {
        let mut v: StringHashMap<SourcePackageInfo> = StringHashMap::new();
        assert(info_map(v@) =~= Map::<Seq<char>, (bool, VersionModel)>::empty());
        let mut i: usize = 0;
        assert(sources@.subrange(0, 0) =~= Seq::<SourcePackage>::empty());
        while i < sources.len()
            invariant
                i <= sources.len(),
                records(info_map(v@), source_sightings(sources@.subrange(0, i as int))),
            decreases sources.len() - i,
        {
            let s = &sources[i];
            let ghost p = sources@.subrange(0, i + 1);
            assert(p.drop_last() =~= sources@.subrange(0, i as int));
            assert(p.last() == sources@[i as int]);
            if !s.extra_source_only {
                let ghost m = info_map(v@);
                let ghost x = (s.package@, s.version@, false);
                record(&mut v, &s.package, s.version.duplicate(), false);
                proof {
                    lemma_records_step(m, source_sightings(sources@.subrange(0, i as int)), x, info_map(v@));
                }
            }
            i = i + 1;
        }
        assert(sources@.subrange(0, sources.len() as int) =~= sources@);
        let ghost all = source_sightings(sources@);
        add_binaries(&mut v, binaries, Ghost(all));
        SourcePackages(v)
    }

    /// Check if a source package builds an MA: same binary package
    ///
    /// Returns false if the source package does not exist.
    pub fn is_ma_same(&self, source: &str) -> (r: bool)
        ensures
            r == (self@.contains_key(source@) && self@[source@].0),
    {
        match self.0.get(source) {
            Some(info) => info.ma_same,
            None => false,
        }
    }

    /// Get the maximal version of a source package
    pub fn version(&self, source: &str) -> (r: Option<&PackageVersion>)
        ensures
            r is Some == self@.contains_key(source@),
            r is Some ==> r->0@ == self@[source@].1,
    {
        match self.0.get(source) {
            Some(info) => Some(&info.version),
            None => None,
        }
    }
}

} // verus!
