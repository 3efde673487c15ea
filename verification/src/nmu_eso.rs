//! Rebuilds for outdated `Built-Using`: binary packages that name, in
//! `Built-Using` (or `Static-Built-Using`, `X-Cargo-Built-Using`), source
//! versions that are no longer the current ones.

use vstd::prelude::*;

use crate::architectures::Architecture;
use crate::archive::{soc_suite, soc_with_extension, Extension, Suite, SuiteOrCodename};
use crate::cli::{field_name, relationships_view, Field};
use crate::error::ParseError;
use crate::package::{
    lemma_versioned_order_antisym, lemma_versioned_order_trans, parse_package_relationship,
    versioned_order, PackageName, PackageRelationship, Relationship, RelationshipModel,
    VersionedPackage,
};
use crate::order::lemma_lex_order_basics;
use crate::source_packages::{binary_source, binary_source_version, BinaryPackage as SourcesBinaryPackage, SourcePackages};
use crate::archive::suite_text;
use crate::config::{skip_binnmu, source_skip_binnmu};
use crate::strings::{join, join_strings, split_words, trim, trim_str, views};
use crate::text::{chars_of, split_all, split_str, string_of};
use crate::udd_bugs::{bugs_listing, UDDBug, UDDBugs};
use crate::version::{
    version_text, lemma_version_order_antisym, lemma_version_order_refl, lemma_version_order_trans, version_order, VersionModel,
};
use crate::wb::{
    bad_architecture, binnmu_text, first_bad_architecture, BinNMU, BinNMUModel, Error, SourceModel, SourceSpecifier,
    WBArchitecture, WBCommand, WBCommandBuilder,
};

verus! {

/// `s` without one trailing `c`.
pub open spec fn strip_one(s: Seq<char>, c: char) -> Seq<char> {
    if s.len() > 0 && s.last() == c {
        s.drop_last()
    } else {
        s
    }
}

/// The relationships of a list, trailing space and comma tolerated.
pub open spec fn relationship_pieces(s: Seq<char>) -> Seq<Seq<char>> {
    split_all(strip_one(strip_one(s, ' '), ','), ',').map_values(|p: Seq<char>| trim(p))
}

/// What parsing the pieces gives: the relationships, or the error of the
/// first piece that does not parse.
pub open spec fn parse_relationships(pieces: Seq<Seq<char>>) -> Result<Seq<RelationshipModel>, ParseError>
    decreases pieces.len(),
{
    if pieces.len() == 0 {
        Ok(Seq::empty())
    } else {
        match parse_relationships(pieces.drop_last()) {
            Err(e) => Err(e),
            Ok(rs) => match parse_package_relationship(pieces.last()) {
                Err(e) => Err(e),
                Ok(r) => Ok(rs.push(r)),
            },
        }
    }
}

proof fn lemma_parse_relationships_err(all: Seq<Seq<char>>, k: int)
    requires
        0 <= k <= all.len(),
        parse_relationships(all.subrange(0, k)) is Err,
    ensures
        parse_relationships(all) == parse_relationships(all.subrange(0, k)),
    decreases all.len() - k,
{
    if k < all.len() {
        let p = all.subrange(0, k + 1);
        assert(p.drop_last() =~= all.subrange(0, k));
        lemma_parse_relationships_err(all, k + 1);
    } else {
        assert(all.subrange(0, k) =~= all);
    }
}

/// `s` without one trailing `c`.
fn strip_one_char(s: &str, c: char) -> (r: String)
    ensures
        r@ == strip_one(s@, c),
{
    let v = chars_of(s);
    if v.len() > 0 && v[v.len() - 1] == c {
        let r = string_of(&v, 0, v.len() - 1);
        assert(r@ =~= s@.drop_last());
        r
    } else {
        let r = string_of(&v, 0, v.len());
        assert(r@ =~= s@);
        r
    }
}

/// Parses a comma-separated list of package relationships, as
/// `Built-Using` fields hold them (a trailing space and a trailing comma
/// are tolerated).
pub fn parse_package_relationships(s: &str) -> (r: Result<Vec<PackageRelationship>, ParseError>)
    ensures
        match parse_relationships(relationship_pieces(s@)) {
            Ok(rs) => r is Ok && relationships_view(r->Ok_0@) == rs,
            Err(e) => r == Err::<Vec<PackageRelationship>, ParseError>(e),
        },
{
    // remove trailing spaces found in X-Cargo-Built-Using
    let s1 = strip_one_char(s, ' ');
    // remove trailing commas found in X-Cargo-Built-Using
    let s2 = strip_one_char(s1.as_str(), ',');
    let pieces = split_str(s2.as_str(), ',');
    let ghost all = relationship_pieces(s@);
    assert(views(pieces@) == split_all(s2@, ','));
    let mut out: Vec<PackageRelationship> = Vec::new();
    let mut i: usize = 0;
    assert(all.subrange(0, 0) =~= Seq::<Seq<char>>::empty());
    assert(relationships_view(out@) =~= Seq::<RelationshipModel>::empty());
    while i < pieces.len()
        invariant
            i <= pieces.len(),
            all == relationship_pieces(s@),
            all.len() == pieces.len(),
            forall|k: int| 0 <= k < pieces.len() ==> #[trigger] all[k] == trim(pieces@[k]@),
            parse_relationships(all.subrange(0, i as int)) == Ok::<Seq<RelationshipModel>, ParseError>(
                relationships_view(out@),
            ),
        decreases pieces.len() - i,
    {
        let piece = trim_str(pieces[i].as_str());
        let ghost prefix = all.subrange(0, i + 1);
        assert(prefix.drop_last() =~= all.subrange(0, i as int));
        assert(prefix.last() == all[i as int]);
        match PackageRelationship::try_from(piece.as_str()) {
            Ok(rel) => {
                let ghost before = out@;
                out.push(rel);
                assert(relationships_view(out@) =~= relationships_view(before).push(rel@));
            },
            Err(e) => {
                proof {
                    assert(parse_relationships(prefix) == Err::<Seq<RelationshipModel>, ParseError>(e));
                    lemma_parse_relationships_err(all, i as int + 1);
                }
                return Err(e);
            },
        }
        i = i + 1;
    }
    assert(all.subrange(0, pieces.len() as int) =~= all);
    Ok(out)
}

/// The suites whose source packages count: for stable and oldstable also
/// their proposed-updates, for their extensions also the base suite.
pub open spec fn suites_for_sources(suite: SuiteOrCodename) -> Seq<SuiteOrCodename> {
    match soc_suite(suite) {
        Suite::Testing(_) | Suite::Unstable | Suite::Experimental => seq![suite],
        Suite::Stable(None) | Suite::OldStable(None) => seq![
            suite,
            soc_with_extension(suite, Some(Extension::ProposedUpdates)),
        ],
        Suite::Stable(Some(_)) | Suite::OldStable(Some(_)) => seq![soc_with_extension(suite, None), suite],
    }
}

/// The suites whose binary packages are looked at: for stable and
/// oldstable also their proposed-updates.
pub open spec fn suites_for_binaries(suite: SuiteOrCodename) -> Seq<SuiteOrCodename> {
    match soc_suite(suite) {
        Suite::Stable(None) | Suite::OldStable(None) => seq![
            suite,
            soc_with_extension(suite, Some(Extension::ProposedUpdates)),
        ],
        _ => seq![suite],
    }
}

/// The suites whose source packages count.
pub fn expand_suite_for_sources(suite: SuiteOrCodename) -> (r: Vec<SuiteOrCodename>)
    ensures
        r@ == suites_for_sources(suite),
{
    let base: Suite = Suite::from(suite);
    let mut v = Vec::new();
    match base {
        // when looking at testing, ignore testing-proposed-updates
        Suite::Testing(_) | Suite::Unstable | Suite::Experimental => {
            v.push(suite);
        },
        // when looking at stable, consider stable and proposed-updates
        Suite::Stable(None) | Suite::OldStable(None) => {
            v.push(suite);
            v.push(suite.with_extension(Extension::ProposedUpdates));
        },
        // always consider base suite as well
        Suite::Stable(Some(_)) | Suite::OldStable(Some(_)) => {
            v.push(suite.without_extension());
            v.push(suite);
        },
    }
    assert(v@ =~= suites_for_sources(suite));
    v
}

/// The suites whose binary packages are looked at.
pub fn expand_suite_for_binaries(suite: SuiteOrCodename) -> (r: Vec<SuiteOrCodename>)
    ensures
        r@ == suites_for_binaries(suite),
{
    let base: Suite = Suite::from(suite);
    let mut v = Vec::new();
    match base {
        // when looking at stable, consider stable and proposed-updates
        Suite::Stable(None) | Suite::OldStable(None) => {
            v.push(suite);
            v.push(suite.with_extension(Extension::ProposedUpdates));
        },
        _ => {
            v.push(suite);
        },
    }
    assert(v@ =~= suites_for_binaries(suite));
    v
}

/// A binary package with the fields that name the sources it was built with.
#[derive(Debug)]
pub struct BinaryPackage {
    pub package: SourcesBinaryPackage,
    pub architecture: Architecture,
    pub built_using: Vec<PackageRelationship>,
    pub static_built_using: Vec<PackageRelationship>,
    pub x_cargo_built_using: Vec<PackageRelationship>,
}

/// The relationships of a field of a binary package.
pub open spec fn field_list(b: BinaryPackage, f: Field) -> Seq<RelationshipModel> {
    relationships_view(
        match f {
            Field::BuiltUsing => b.built_using@,
            Field::StaticBuiltUsing => b.static_built_using@,
            Field::XCargoBuiltUsing => b.x_cargo_built_using@,
        },
    )
}

/// The source and version that a relationship names exactly (`= version`,
/// no architectures, no profiles).
pub open spec fn exact_dependency(r: RelationshipModel) -> Option<(Seq<char>, VersionModel)> {
    match r.version_relation {
        Some(vr) => if vr.1 == Relationship::Equal && r.architecture_restrictions is None
            && r.build_profiles is None {
            Some((r.package, vr.0))
        } else {
            None
        },
        None => None,
    }
}

/// A source version is outdated: the source is gone, or has a higher version.
pub open spec fn is_outdated(d: (Seq<char>, VersionModel), sources: Map<Seq<char>, (bool, VersionModel)>) -> bool {
    !sources.contains_key(d.0) || version_order(d.1, sources[d.0].1) < 0
}

/// The outdated sources that relationships name exactly, in their order.
pub open spec fn outdated_in(rs: Seq<RelationshipModel>, sources: Map<Seq<char>, (bool, VersionModel)>) -> Seq<
    (Seq<char>, VersionModel),
>
    decreases rs.len(),
{
    if rs.len() == 0 {
        Seq::empty()
    } else {
        let before = outdated_in(rs.drop_last(), sources);
        match exact_dependency(rs.last()) {
            Some(d) => if is_outdated(d, sources) {
                before.push(d)
            } else {
                before
            },
            None => before,
        }
    }
}

/// The outdated sources that the chosen fields of a binary package name.
pub open spec fn outdated_of(fields: Seq<Field>, b: BinaryPackage, sources: Map<Seq<char>, (bool, VersionModel)>) -> Seq<
    (Seq<char>, VersionModel),
>
    decreases fields.len(),
{
    if fields.len() == 0 {
        Seq::empty()
    } else {
        outdated_of(fields.drop_last(), b, sources) + outdated_in(field_list(b, fields.last()), sources)
    }
}

/// The views of versioned packages.
pub open spec fn versioned_view(v: Seq<VersionedPackage>) -> Seq<(Seq<char>, VersionModel)> {
    v.map_values(|p: VersionedPackage| p@)
}

/// Two versioned packages are equal in their order.
#[verifier::opaque]
pub open spec fn same_versioned(a: (Seq<char>, VersionModel), b: (Seq<char>, VersionModel)) -> bool {
    versioned_order(a, b) == 0
}

/// The versioned packages of `c`, each once (up to the equality of
/// versions), in the order in which they first come.
pub open spec fn dedup(c: Seq<(Seq<char>, VersionModel)>) -> Seq<(Seq<char>, VersionModel)>
    decreases c.len(),
{
    if c.len() == 0 {
        Seq::empty()
    } else {
        let d = dedup(c.drop_last());
        if exists|k: int| 0 <= k < d.len() && same_versioned(#[trigger] d[k], c.last()) {
            d
        } else {
            d.push(c.last())
        }
    }
}

/// A source package whose binaries name outdated sources.
#[derive(Debug)]
pub struct OutdatedSourcePackage {
    pub source: VersionedPackage,
    pub built_using: Vec<VersionedPackage>,
    pub architecture: WBArchitecture,
}

/// Versioned packages are equal when their order is.
proof fn lemma_versioned_refl(a: (Seq<char>, VersionModel))
    ensures
        versioned_order(a, a) == 0,
        same_versioned(a, a),
{
    reveal(same_versioned);
    lemma_lex_order_basics(a.0, a.0);
    lemma_version_order_refl(a.1);
}

/// Only nothing has nothing to keep.
proof fn lemma_dedup_empty(c: Seq<(Seq<char>, VersionModel)>)
    ensures
        (dedup(c).len() == 0) == (c.len() == 0),
    decreases c.len(),
{
    if c.len() > 0 {
        lemma_dedup_empty(c.drop_last());
    }
}

/// Adds a versioned package to a set unless an equal one is there.
fn insert_unique(set: &mut Vec<VersionedPackage>, x: VersionedPackage, Ghost(c): Ghost<Seq<(Seq<char>, VersionModel)>>)
    requires
        versioned_view(old(set)@) == dedup(c),
    ensures
        versioned_view(final(set)@) == dedup(c.push(x@)),
{
    let ghost v0 = versioned_view(set@);
    let ghost c2 = c.push(x@);
    assert(c2.drop_last() =~= c);
    assert(c2.last() == x@);
    let mut i: usize = 0;
    while i < set.len()
        invariant
            i <= set.len(),
            v0 == versioned_view(set@),
            v0 == dedup(c),
            c2 == c.push(x@),
            c2.drop_last() == c,
            c2.last() == x@,
            forall|k: int| 0 <= k < i ==> !same_versioned(#[trigger] v0[k], x@),
        decreases set.len() - i,
    {
        assert(v0[i as int] == set@[i as int]@);
        let o = set[i].order(&x);
        proof {
            reveal(same_versioned);
        }
        if o == 0 {
            assert(same_versioned(v0[i as int], x@));
            assert(dedup(c2.drop_last()) == v0);
            assert(same_versioned(dedup(c2.drop_last())[i as int], c2.last()));
            assert(dedup(c2) == v0);
            return;
        }
        i = i + 1;
    }
    set.push(x);
    assert(versioned_view(set@) =~= v0.push(x@));
}

/// The outdated source that a relationship names exactly, if any.
fn outdated_dependency(r: &PackageRelationship, sources: &SourcePackages) -> (d: Option<VersionedPackage>)
    ensures
        match exact_dependency(r@) {
            Some(x) => if is_outdated(x, sources@) {
                d matches Some(y) && y@ == x
            } else {
                d is None
            },
            None => d is None,
        },
{
    match (&r.version_relation, &r.architecture_restrictions, &r.build_profiles) {
        (Some(vr), None, None) => {
            if vr.relation != Relationship::Equal {
                return None;
            }
            let current = sources.version(r.package.as_str());
            let outdated = match current {
                Some(cur) => vr.version.order(cur) < 0,
                None => true,
            };
            if outdated {
                Some(VersionedPackage { package: r.package.duplicate(), version: vr.version.duplicate() })
            } else {
                None
            }
        },
        _ => None,
    }
}

/// The source package of a binary package that names outdated sources in
/// the chosen fields: `None` for `Arch: all` packages and where nothing is
/// outdated; `ANY` as architecture where the source builds a
/// `Multi-Arch: same` package.
pub fn outdated_source(fields: &[Field], binary_package: &BinaryPackage, sources: &SourcePackages) -> (r: Option<
    OutdatedSourcePackage,
>)
    ensures
        binary_package.architecture == Architecture::All || outdated_of(fields@, *binary_package, sources@).len()
            == 0 ==> r is None,
        !(binary_package.architecture == Architecture::All || outdated_of(fields@, *binary_package, sources@).len()
            == 0) ==> (r matches Some(o) && o.source@ == (
            binary_source(binary_package.package),
            binary_source_version(binary_package.package),
        ) && versioned_view(o.built_using@) == dedup(outdated_of(fields@, *binary_package, sources@))
            && o.architecture == (if sources@.contains_key(binary_source(binary_package.package))
            && sources@[binary_source(binary_package.package)].0 {
            WBArchitecture::Any
        } else {
            WBArchitecture::Architecture(binary_package.architecture)
        })),
{
    // skip Arch: all packages
    if binary_package.architecture == Architecture::All {
        return None;
    }
    let ghost all = outdated_of(fields@, *binary_package, sources@);
    let mut set: Vec<VersionedPackage> = Vec::new();
    let ghost seen: Seq<(Seq<char>, VersionModel)> = Seq::empty();
    let mut f: usize = 0;
    assert(fields@.subrange(0, 0) =~= Seq::<Field>::empty());
    while f < fields.len()
        invariant
            f <= fields.len(),
            seen == outdated_of(fields@.subrange(0, f as int), *binary_package, sources@),
            versioned_view(set@) == dedup(seen),
        decreases fields.len() - f,
    {
        let list = match fields[f] {
            Field::BuiltUsing => &binary_package.built_using,
            Field::StaticBuiltUsing => &binary_package.static_built_using,
            Field::XCargoBuiltUsing => &binary_package.x_cargo_built_using,
        };
        let ghost rs = field_list(*binary_package, fields@[f as int]);
        assert(rs == relationships_view(list@));
        let ghost base = seen;
        let mut k: usize = 0;
        assert(rs.subrange(0, 0) =~= Seq::<RelationshipModel>::empty());
        assert(base + outdated_in(rs.subrange(0, 0), sources@) =~= base);
        while k < list.len()
            invariant
                k <= list.len(),
                rs == relationships_view(list@),
                seen == base + outdated_in(rs.subrange(0, k as int), sources@),
                versioned_view(set@) == dedup(seen),
            decreases list.len() - k,
        {
            let ghost p = rs.subrange(0, k + 1);
            assert(p.drop_last() =~= rs.subrange(0, k as int));
            assert(p.last() == list@[k as int]@);
            match outdated_dependency(&list[k], sources) {
                Some(d) => {
                    let ghost before = seen;
                    insert_unique(&mut set, d, Ghost(seen));
                    proof {
                        seen = seen.push(d@);
                        assert(seen =~= base + outdated_in(rs.subrange(0, k + 1), sources@));
                    }
                },
                None => {},
            }
            k = k + 1;
        }
        assert(rs.subrange(0, list.len() as int) =~= rs);
        proof {
            let q = fields@.subrange(0, f + 1);
            assert(q.drop_last() =~= fields@.subrange(0, f as int));
            assert(q.last() == fields@[f as int]);
        }
        f = f + 1;
    }
    assert(fields@.subrange(0, fields.len() as int) =~= fields@);
    // all packages in Built-Using are up to date
    if set.len() == 0 {
        proof {
            lemma_dedup_empty(seen);
        }
        return None;
    }
    let source = binary_package.package.source_package();
    // if the package builds any MA: same packages, schedule binNMUs with ANY
    let architecture = if sources.is_ma_same(source.package.as_str()) {
        WBArchitecture::Any
    } else {
        WBArchitecture::Architecture(binary_package.architecture)
    };
    proof {
        lemma_dedup_empty(seen);
    }
    Some(OutdatedSourcePackage { source, built_using: set, architecture })
}


// ---------------------------------------------------------------------
// Combining the outdated packages of a source
// ---------------------------------------------------------------------

/// A source package on a suite and architecture whose binaries name an
/// outdated source.
#[derive(Debug)]
pub struct OutdatedPackage {
    pub source: VersionedPackage,
    pub suite: Suite,
    pub outdated_dependency: VersionedPackage,
    pub architecture: WBArchitecture,
}

/// A source package to rebuild on a suite and architecture, with the
/// outdated sources its binaries name.
#[derive(Debug)]
pub struct CombinedOutdatedPackage {
    pub source: VersionedPackage,
    pub suite: Suite,
    pub architecture: WBArchitecture,
    pub outdated_dependencies: Vec<VersionedPackage>,
}

/// What outdated packages are grouped by: source name, suite and architecture.
pub open spec fn okey(p: OutdatedPackage) -> (Seq<char>, Suite, WBArchitecture) {
    (p.source.package@, p.suite, p.architecture)
}

/// The group of a combined package.
pub open spec fn ckey(c: CombinedOutdatedPackage) -> (Seq<char>, Suite, WBArchitecture) {
    (c.source.package@, c.suite, c.architecture)
}

/// The source has no bug that makes it fail to build.
pub open spec fn builds(p: OutdatedPackage, bugs: Seq<UDDBug>) -> bool {
    bugs_listing(bugs, p.source.package@).len() == 0
}

/// The package at `j` is kept and belongs to the group `k`.
pub open spec fn in_group(
    ps: Seq<OutdatedPackage>,
    bugs: Seq<UDDBug>,
    j: int,
    k: (Seq<char>, Suite, WBArchitecture),
) -> bool {
    0 <= j < ps.len() && builds(ps[j], bugs) && okey(ps[j]) == k
}

/// `x` is equal to an element of `s`.
#[verifier::opaque]
pub open spec fn listed(s: Seq<(Seq<char>, VersionModel)>, x: (Seq<char>, VersionModel)) -> bool {
    exists|a: int| 0 <= a < s.len() && same_versioned(s[a], x)
}

/// Each element of `s` is below the next.
pub open spec fn strictly_sorted(s: Seq<(Seq<char>, VersionModel)>) -> bool {
    forall|a: int, b: int| 0 <= a < b < s.len() ==> versioned_order(#[trigger] s[a], #[trigger] s[b]) < 0
}

/// Each element of `deps` is the outdated source of a package of the
/// group `k` with version `v`.
pub open spec fn drawn_from(
    deps: Seq<(Seq<char>, VersionModel)>,
    ps: Seq<OutdatedPackage>,
    bugs: Seq<UDDBug>,
    k: (Seq<char>, Suite, WBArchitecture),
    v: VersionModel,
) -> bool {
    forall|a: int|
        0 <= a < deps.len() ==> exists|j: int|
            #[trigger] in_group(ps, bugs, j, k) && version_order(ps[j].source.version@, v) == 0
                && (#[trigger] deps[a]) == ps[j].outdated_dependency@
}

/// A combined package describes its group: the highest version among the
/// group (one that occurs in it), and, sorted and each once, the outdated
/// sources that the group names with that version.
pub open spec fn combines(c: CombinedOutdatedPackage, ps: Seq<OutdatedPackage>, bugs: Seq<UDDBug>) -> bool {
    let k = ckey(c);
    let v = c.source.version@;
    let deps = versioned_view(c.outdated_dependencies@);
    &&& exists|j: int| #[trigger] in_group(ps, bugs, j, k) && ps[j].source.version@ == v
    &&& forall|j: int| #[trigger] in_group(ps, bugs, j, k) ==> version_order(ps[j].source.version@, v) <= 0
    &&& strictly_sorted(deps)
    &&& drawn_from(deps, ps, bugs, k, v)
    &&& forall|j: int|
        #[trigger] in_group(ps, bugs, j, k) && version_order(ps[j].source.version@, v) == 0 ==> listed(
            deps,
            ps[j].outdated_dependency@,
        )
}

/// `r` has a combined package of the group `k`.
#[verifier::opaque]
pub open spec fn has_group(r: Seq<CombinedOutdatedPackage>, k: (Seq<char>, Suite, WBArchitecture)) -> bool {
    exists|i: int| 0 <= i < r.len() && ckey(r[i]) == k
}

/// `r` combines the outdated packages: one combined package per group of
/// packages without bugs that make them fail to build, sorted by source.
pub open spec fn combined(r: Seq<CombinedOutdatedPackage>, ps: Seq<OutdatedPackage>, bugs: Seq<UDDBug>) -> bool {
    &&& forall|i: int| 0 <= i < r.len() ==> combines(#[trigger] r[i], ps, bugs)
    &&& forall|i: int, j: int| 0 <= i < j < r.len() ==> ckey(#[trigger] r[i]) != ckey(#[trigger] r[j])
    &&& forall|j: int| 0 <= j < ps.len() && builds(#[trigger] ps[j], bugs) ==> has_group(r, okey(ps[j]))
    &&& forall|i: int, j: int|
        0 <= i < j < r.len() ==> versioned_order((#[trigger] r[i]).source@, (#[trigger] r[j]).source@) <= 0
}

/// Inserts `x` into a strictly sorted list unless an equal one is there.
fn insert_sorted(deps: &mut Vec<VersionedPackage>, x: VersionedPackage)
    requires
        strictly_sorted(versioned_view(old(deps)@)),
    ensures
        strictly_sorted(versioned_view(final(deps)@)),
        listed(versioned_view(final(deps)@), x@),
        forall|y: (Seq<char>, VersionModel)| listed(versioned_view(old(deps)@), y) ==> listed(versioned_view(final(deps)@), y),
        forall|a: int| 0 <= a < final(deps)@.len() ==> (#[trigger] final(deps)@[a])@ == x@ || old(deps)@.contains(final(deps)@[a]),
{
    let ghost v0 = versioned_view(deps@);
    let ghost d0 = deps@;
    let mut pos: usize = 0;
    while pos < deps.len() && deps[pos].order(&x) < 0
        invariant
            pos <= deps.len(),
            v0 == versioned_view(deps@),
            d0 == deps@,
            forall|a: int| 0 <= a < pos ==> versioned_order(#[trigger] v0[a], x@) < 0,
        decreases deps.len() - pos,
    {
        assert(v0[pos as int] == deps@[pos as int]@);
        pos = pos + 1;
    }
    proof {
        reveal(listed);
        reveal(same_versioned);
    }
    if pos < deps.len() && deps[pos].order(&x) == 0 {
        assert(v0[pos as int] == deps@[pos as int]@);
        assert(same_versioned(v0[pos as int], x@));
        assert forall|a: int| 0 <= a < deps@.len() implies (#[trigger] deps@[a])@ == x@ || d0.contains(deps@[a]) by {
            assert(d0[a] == deps@[a]);
        }
        return;
    }
    proof {
        if pos < deps.len() {
            assert(v0[pos as int] == deps@[pos as int]@);
            lemma_versioned_order_antisym(v0[pos as int], x@);
        }
    }
    deps.insert(pos, x);
    proof {
        let v1 = versioned_view(deps@);
        assert(deps@ =~= d0.insert(pos as int, x));
        assert(v1 =~= v0.insert(pos as int, x@));
        assert forall|a: int, b: int| 0 <= a < b < v1.len() implies versioned_order(#[trigger] v1[a], #[trigger] v1[b]) < 0 by {
            if b < pos {
                assert(v1[a] == v0[a] && v1[b] == v0[b]);
            } else if b == pos {
                assert(v1[a] == v0[a]);
            } else if a < pos {
                assert(v1[a] == v0[a] && v1[b] == v0[b - 1]);
                lemma_strict_trans(v0[a], x@, v0[b - 1], v0[pos as int]);
            } else if a == pos {
                assert(v1[b] == v0[b - 1]);
                if b - 1 > pos {
                    lemma_strict_trans2(x@, v0[pos as int], v0[b - 1]);
                }
            } else {
                assert(v1[a] == v0[a - 1] && v1[b] == v0[b - 1]);
            }
        }
        lemma_versioned_refl(x@);
        assert(v1[pos as int] == x@);
        assert forall|y: (Seq<char>, VersionModel)| listed(v0, y) implies listed(v1, y) by {
            let a = choose|a: int| 0 <= a < v0.len() && same_versioned(v0[a], y);
            if a < pos {
                assert(v1[a] == v0[a]);
            } else {
                assert(v1[a + 1] == v0[a]);
            }
        }
        assert forall|a: int| 0 <= a < deps@.len() implies (#[trigger] deps@[a])@ == x@ || d0.contains(deps@[a]) by {
            if a < pos {
                assert(deps@[a] == d0[a]);
            } else if a > pos {
                assert(deps@[a] == d0[a - 1]);
            }
        }
    }
}

/// `a < x <= c` or so: below `x` and `x` below the `m` that is below `c`
/// puts `a` below `c`.
proof fn lemma_strict_trans(
    a: (Seq<char>, VersionModel),
    x: (Seq<char>, VersionModel),
    c: (Seq<char>, VersionModel),
    m: (Seq<char>, VersionModel),
)
    requires
        versioned_order(a, x) < 0,
        versioned_order(x, m) < 0,
        versioned_order(m, c) < 0 || m == c,
    ensures
        versioned_order(a, c) < 0,
{
    lemma_strict_trans2(a, x, m);
    if m != c {
        lemma_strict_trans2(a, m, c);
    }
}

/// Strict order is transitive.
proof fn lemma_strict_trans2(a: (Seq<char>, VersionModel), b: (Seq<char>, VersionModel), c: (Seq<char>, VersionModel))
    requires
        versioned_order(a, b) < 0,
        versioned_order(b, c) < 0,
    ensures
        versioned_order(a, c) < 0,
{
    lemma_versioned_order_trans(a, b, c);
    if versioned_order(a, c) == 0 {
        lemma_versioned_order_antisym(a, c);
        lemma_versioned_order_trans(b, c, a);
        lemma_versioned_order_antisym(a, b);
    }
}


/// The groups are the same.
fn same_group(a: &OutdatedPackage, b: &OutdatedPackage) -> (r: bool)
    ensures
        r == (okey(*a) == okey(*b)),
{
    a.source.package.is(b.source.package.as_str()) && a.suite == b.suite && a.architecture == b.architecture
}

/// The combined package of the group of the package at `j`.
fn combine_group(
    packages: &[OutdatedPackage],
    kept: &Vec<bool>,
    j: usize,
    Ghost(bugs): Ghost<Seq<UDDBug>>,
) -> (c: CombinedOutdatedPackage)
    requires
        j < packages.len(),
        kept@.len() == packages@.len(),
        forall|t: int| 0 <= t < kept@.len() ==> kept@[t] == builds(#[trigger] packages@[t], bugs),
        kept@[j as int],
    ensures
        combines(c, packages@, bugs),
        ckey(c) == okey(packages@[j as int]),
{
    let ghost ps = packages@;
    let ghost k = okey(ps[j as int]);
    let n = packages.len();
    // the highest version of the group
    let mut m: usize = j;
    let mut t: usize = 0;
    proof {
        lemma_version_order_refl(ps[j as int].source.version@);
    }
    while t < n
        invariant
            n == packages.len(),
            ps == packages@,
            j < n,
            k == okey(ps[j as int]),
            t <= n,
            m < n,
            kept@.len() == n,
            forall|u: int| 0 <= u < kept@.len() ==> kept@[u] == builds(#[trigger] packages@[u], bugs),
            in_group(ps, bugs, m as int, k),
            forall|u: int| 0 <= u < t && #[trigger] in_group(ps, bugs, u, k) ==> version_order(
                ps[u].source.version@,
                ps[m as int].source.version@,
            ) <= 0,
        decreases n - t,
    {
        if kept[t] && same_group(&packages[t], &packages[j]) {
            if packages[t].source.version.order(&packages[m].source.version) > 0 {
                proof {
                    let vm = ps[m as int].source.version@;
                    let vt = ps[t as int].source.version@;
                    lemma_version_order_antisym(vt, vm);
                    lemma_version_order_refl(vt);
                    assert forall|u: int| 0 <= u < t + 1 && #[trigger] in_group(ps, bugs, u, k) implies version_order(
                        ps[u].source.version@,
                        vt,
                    ) <= 0 by {
                        if u < t {
                            lemma_version_order_trans(ps[u].source.version@, vm, vt);
                        }
                    }
                }
                m = t;
            }
        }
        t = t + 1;
    }
    let ghost vmax = ps[m as int].source.version@;
    assert forall|u: int| #[trigger] in_group(ps, bugs, u, k) implies version_order(ps[u].source.version@, vmax) <= 0 by {
        assert(0 <= u < t);
    }
    // the outdated sources of the entries with the highest version
    let mut deps: Vec<VersionedPackage> = Vec::new();
    proof {
        reveal(listed);
    }
    t = 0;
    while t < n
        invariant
            n == packages.len(),
            ps == packages@,
            j < n,
            k == okey(ps[j as int]),
            t <= n,
            m < n,
            in_group(ps, bugs, m as int, k),
            vmax == ps[m as int].source.version@,
            forall|u: int| #[trigger] in_group(ps, bugs, u, k) ==> version_order(ps[u].source.version@, vmax) <= 0,
            kept@.len() == n,
            forall|u: int| 0 <= u < kept@.len() ==> kept@[u] == builds(#[trigger] packages@[u], bugs),
            strictly_sorted(versioned_view(deps@)),
            drawn_from(versioned_view(deps@), ps, bugs, k, vmax),
            forall|u: int|
                0 <= u < t && #[trigger] in_group(ps, bugs, u, k) && version_order(ps[u].source.version@, vmax) == 0
                    ==> listed(versioned_view(deps@), ps[u].outdated_dependency@),
        decreases n - t,
    {
        if kept[t] && same_group(&packages[t], &packages[j]) && packages[t].source.version.order(
            &packages[m].source.version,
        ) == 0 {
            let ghost d0 = deps@;
            assert(in_group(ps, bugs, t as int, k));
            assert(version_order(ps[t as int].source.version@, vmax) == 0);
            let x = packages[t].outdated_dependency.duplicate();
            insert_sorted(&mut deps, x);
            proof {
                let v0 = versioned_view(d0);
                let v1 = versioned_view(deps@);
                assert forall|a: int| 0 <= a < v1.len() implies exists|u: int|
                    #[trigger] in_group(ps, bugs, u, k) && version_order(ps[u].source.version@, vmax) == 0
                        && (#[trigger] v1[a]) == ps[u].outdated_dependency@ by {
                    assert(v1[a] == deps@[a]@);
                    if deps@[a]@ == x@ {
                        assert(in_group(ps, bugs, t as int, k));
                    } else {
                        assert(d0.contains(deps@[a]));
                        let b = choose|b: int| 0 <= b < d0.len() && d0[b] == deps@[a];
                        assert(v0[b] == v1[a]);
                    }
                }
            }
        }
        t = t + 1;
    }
    let deps_view = Ghost(versioned_view(deps@));
    let c = CombinedOutdatedPackage {
        source: VersionedPackage {
            package: packages[j].source.package.duplicate(),
            version: packages[m].source.version.duplicate(),
        },
        suite: packages[j].suite,
        architecture: packages[j].architecture,
        outdated_dependencies: deps,
    };
    assert(in_group(ps, bugs, m as int, ckey(c)));
    assert(ckey(c) == k);
    assert(c.source.version@ == vmax);
    assert(versioned_view(c.outdated_dependencies@) == deps_view@);
    assert(strictly_sorted(deps_view@));
    assert(forall|u: int| #[trigger] in_group(ps, bugs, u, k) && version_order(ps[u].source.version@, vmax) == 0 ==> listed(deps_view@, ps[u].outdated_dependency@));
    c
}

/// A package before `j` belongs to the group `k`.
pub open spec fn key_seen(ps: Seq<OutdatedPackage>, bugs: Seq<UDDBug>, j: int, k: (Seq<char>, Suite, WBArchitecture)) -> bool {
    exists|t: int| 0 <= t < j && #[trigger] in_group(ps, bugs, t, k)
}

/// The invariant of combining the packages before `j` into `r`.
pub open spec fn combining(r: Seq<CombinedOutdatedPackage>, ps: Seq<OutdatedPackage>, bugs: Seq<UDDBug>, j: int) -> bool {
    &&& forall|i: int| 0 <= i < r.len() ==> combines(#[trigger] r[i], ps, bugs)
    &&& forall|i: int, l: int| 0 <= i < l < r.len() ==> ckey(#[trigger] r[i]) != ckey(#[trigger] r[l])
    &&& forall|t: int| 0 <= t < j && builds(#[trigger] ps[t], bugs) ==> has_group(r, okey(ps[t]))
    &&& forall|i: int, l: int|
        0 <= i < l < r.len() ==> versioned_order((#[trigger] r[i]).source@, (#[trigger] r[l]).source@) <= 0
    &&& forall|i: int| 0 <= i < r.len() ==> key_seen(ps, bugs, j, ckey(#[trigger] r[i]))
}

/// The facts on each element survive inserting `c`.
proof fn lemma_insert_elements(
    r: Seq<CombinedOutdatedPackage>,
    ps: Seq<OutdatedPackage>,
    bugs: Seq<UDDBug>,
    j: int,
    pos: int,
    c: CombinedOutdatedPackage,
)
    requires
        0 <= j < ps.len(),
        0 <= pos <= r.len(),
        forall|i: int| 0 <= i < r.len() ==> combines(#[trigger] r[i], ps, bugs),
        forall|i: int| 0 <= i < r.len() ==> key_seen(ps, bugs, j, ckey(#[trigger] r[i])),
        combines(c, ps, bugs),
        in_group(ps, bugs, j, ckey(c)),
    ensures
        forall|i: int| 0 <= i < r.insert(pos, c).len() ==> combines(#[trigger] r.insert(pos, c)[i], ps, bugs),
        forall|i: int| 0 <= i < r.insert(pos, c).len() ==> key_seen(ps, bugs, j + 1, ckey(#[trigger] r.insert(pos, c)[i])),
{
    let r2 = r.insert(pos, c);
    assert forall|i: int| 0 <= i < r2.len() implies combines(#[trigger] r2[i], ps, bugs) && key_seen(ps, bugs, j + 1, ckey(r2[i])) by {
        if i < pos {
            assert(r2[i] == r[i]);
            let t = choose|t: int| 0 <= t < j && #[trigger] in_group(ps, bugs, t, ckey(r[i]));
        } else if i > pos {
            assert(r2[i] == r[i - 1]);
            let t = choose|t: int| 0 <= t < j && #[trigger] in_group(ps, bugs, t, ckey(r[i - 1]));
        } else {
            assert(r2[i] == c);
        }
    }
}

/// Keys stay distinct when the key of `c` is new.
proof fn lemma_insert_distinct(
    r: Seq<CombinedOutdatedPackage>,
    ps: Seq<OutdatedPackage>,
    bugs: Seq<UDDBug>,
    j: int,
    pos: int,
    c: CombinedOutdatedPackage,
)
    requires
        0 <= j < ps.len(),
        0 <= pos <= r.len(),
        forall|i: int, l: int| 0 <= i < l < r.len() ==> ckey(#[trigger] r[i]) != ckey(#[trigger] r[l]),
        forall|i: int| 0 <= i < r.len() ==> key_seen(ps, bugs, j, ckey(#[trigger] r[i])),
        ckey(c) == okey(ps[j]),
        forall|t: int| 0 <= t < j && builds(#[trigger] ps[t], bugs) ==> okey(ps[t]) != okey(ps[j]),
    ensures
        forall|i: int, l: int| 0 <= i < l < r.insert(pos, c).len() ==> ckey(#[trigger] r.insert(pos, c)[i]) != ckey(
            #[trigger] r.insert(pos, c)[l],
        ),
{
    let r2 = r.insert(pos, c);
    assert forall|i: int| 0 <= i < r.len() implies ckey(#[trigger] r[i]) != ckey(c) by {
        let t = choose|t: int| 0 <= t < j && #[trigger] in_group(ps, bugs, t, ckey(r[i]));
    }
    assert forall|i: int, l: int| 0 <= i < l < r2.len() implies ckey(#[trigger] r2[i]) != ckey(#[trigger] r2[l]) by {
        if i != pos && l != pos {
            let i0 = if i < pos { i } else { i - 1 };
            let l0 = if l < pos { l } else { l - 1 };
            assert(r2[i] == r[i0] && r2[l] == r[l0]);
        } else {
            let o = if i == pos { l } else { i };
            let o0 = if o < pos { o } else { o - 1 };
            assert(r2[o] == r[o0]);
            assert(r2[pos] == c);
        }
    }
}

/// Sources stay sorted when `c` goes after the sources not above it.
proof fn lemma_insert_sorted(r: Seq<CombinedOutdatedPackage>, pos: int, c: CombinedOutdatedPackage)
    requires
        0 <= pos <= r.len(),
        forall|i: int, l: int|
            0 <= i < l < r.len() ==> versioned_order((#[trigger] r[i]).source@, (#[trigger] r[l]).source@) <= 0,
        forall|p: int| 0 <= p < pos ==> versioned_order((#[trigger] r[p]).source@, c.source@) <= 0,
        pos < r.len() ==> versioned_order(r[pos].source@, c.source@) > 0,
    ensures
        forall|i: int, l: int|
            0 <= i < l < r.insert(pos, c).len() ==> versioned_order(
                (#[trigger] r.insert(pos, c)[i]).source@,
                (#[trigger] r.insert(pos, c)[l]).source@,
            ) <= 0,
{
    let r2 = r.insert(pos, c);
    assert forall|i: int, l: int| 0 <= i < l < r2.len() implies versioned_order(
        (#[trigger] r2[i]).source@,
        (#[trigger] r2[l]).source@,
    ) <= 0 by {
        if i != pos && l != pos {
            let i0 = if i < pos { i } else { i - 1 };
            let l0 = if l < pos { l } else { l - 1 };
            assert(r2[i] == r[i0] && r2[l] == r[l0]);
        } else if i == pos {
            assert(r2[i] == c);
            assert(r2[l] == r[l - 1]);
            lemma_versioned_order_antisym(r[pos].source@, c.source@);
            if l - 1 > pos {
                lemma_versioned_order_trans(c.source@, r[pos].source@, r[l - 1].source@);
            }
        } else {
            assert(r2[l] == c);
            assert(r2[i] == r[i]);
        }
    }
}

/// Every group before `j + 1` has a combined package once `c` is in.
proof fn lemma_insert_groups(
    r: Seq<CombinedOutdatedPackage>,
    ps: Seq<OutdatedPackage>,
    bugs: Seq<UDDBug>,
    j: int,
    pos: int,
    c: CombinedOutdatedPackage,
)
    requires
        0 <= j < ps.len(),
        0 <= pos <= r.len(),
        forall|t: int| 0 <= t < j && builds(#[trigger] ps[t], bugs) ==> has_group(r, okey(ps[t])),
        ckey(c) == okey(ps[j]),
    ensures
        forall|t: int| 0 <= t < j + 1 && builds(#[trigger] ps[t], bugs) ==> has_group(r.insert(pos, c), okey(ps[t])),
{
    let r2 = r.insert(pos, c);
    reveal(has_group);
    assert forall|t: int| 0 <= t < j + 1 && builds(#[trigger] ps[t], bugs) implies has_group(r2, okey(ps[t])) by {
        if t < j {
            let i = choose|i: int| 0 <= i < r.len() && ckey(r[i]) == okey(ps[t]);
            if i < pos {
                assert(r2[i] == r[i]);
            } else {
                assert(r2[i + 1] == r[i]);
            }
        } else {
            assert(r2[pos] == c);
        }
    }
}

/// Inserting the combined package of the first package of a group keeps
/// the invariant.
proof fn lemma_combining_insert(
    r: Seq<CombinedOutdatedPackage>,
    ps: Seq<OutdatedPackage>,
    bugs: Seq<UDDBug>,
    j: int,
    pos: int,
    c: CombinedOutdatedPackage,
)
    requires
        0 <= j < ps.len(),
        combining(r, ps, bugs, j),
        combines(c, ps, bugs),
        ckey(c) == okey(ps[j]),
        builds(ps[j], bugs),
        forall|t: int| 0 <= t < j && builds(#[trigger] ps[t], bugs) ==> okey(ps[t]) != okey(ps[j]),
        0 <= pos <= r.len(),
        forall|p: int| 0 <= p < pos ==> versioned_order((#[trigger] r[p]).source@, c.source@) <= 0,
        pos < r.len() ==> versioned_order(r[pos].source@, c.source@) > 0,
    ensures
        combining(r.insert(pos, c), ps, bugs, j + 1),
{
    assert(in_group(ps, bugs, j, ckey(c)));
    lemma_insert_elements(r, ps, bugs, j, pos, c);
    lemma_insert_distinct(r, ps, bugs, j, pos, c);
    lemma_insert_sorted(r, pos, c);
    lemma_insert_groups(r, ps, bugs, j, pos, c);
}

/// Combines the outdated packages by source, suite and architecture:
/// packages whose source has bugs that make it fail to build are left
/// out; each group gives its highest version and the outdated sources
/// named with that version; the result is sorted by source.
pub fn combine_outdated(packages: &[OutdatedPackage], ftbfs_bugs: &UDDBugs) -> (r: Vec<CombinedOutdatedPackage>)
    ensures
        combined(r@, packages@, ftbfs_bugs@),
{
    let ghost ps = packages@;
    let ghost bugs = ftbfs_bugs@;
    let n = packages.len();
    let mut kept: Vec<bool> = Vec::new();
    let mut t: usize = 0;
    while t < n
        invariant
            n == packages.len(),
            t <= n,
            bugs == ftbfs_bugs@,
            kept@.len() == t,
            forall|u: int| 0 <= u < t ==> kept@[u] == builds(#[trigger] packages@[u], bugs),
        decreases n - t,
    {
        // check if package FTBFS
        let b = ftbfs_bugs.bugs_for_source(packages[t].source.package.as_str());
        kept.push(b.is_none());
        t = t + 1;
    }
    let mut out: Vec<CombinedOutdatedPackage> = Vec::new();
    let mut j: usize = 0;
    proof {
        reveal(has_group);
    }
    while j < n
        invariant
            n == packages.len(),
            ps == packages@,
            bugs == ftbfs_bugs@,
            j <= n,
            kept@.len() == n,
            forall|u: int| 0 <= u < n ==> kept@[u] == builds(#[trigger] packages@[u], bugs),
            combining(out@, ps, bugs, j as int),
        decreases n - j,
    {
        if !kept[j] {
            j = j + 1;
            continue;
        }
        // the first package of its group?
        let mut earlier: Option<usize> = None;
        let mut u: usize = 0;
        while u < j
            invariant
                u <= j < n,
                n == packages.len(),
                ps == packages@,
                kept@.len() == n,
                forall|w: int| 0 <= w < n ==> kept@[w] == builds(#[trigger] packages@[w], bugs),
                match earlier {
                    Some(e) => e < j && builds(ps[e as int], bugs) && okey(ps[e as int]) == okey(ps[j as int]),
                    None => forall|w: int| 0 <= w < u && builds(#[trigger] ps[w], bugs) ==> okey(ps[w]) != okey(ps[j as int]),
                },
            decreases j - u,
        {
            if earlier.is_none() && kept[u] && same_group(&packages[u], &packages[j]) {
                earlier = Some(u);
            }
            u = u + 1;
        }
        match earlier {
            Some(e) => {
                proof {
                    assert(builds(ps[e as int], bugs));
                    assert forall|w: int| 0 <= w < j + 1 && builds(#[trigger] ps[w], bugs) implies has_group(out@, okey(ps[w])) by {
                        if w == j {
                            assert(has_group(out@, okey(ps[e as int])));
                        }
                    }
                    assert forall|i: int| 0 <= i < out@.len() implies key_seen(ps, bugs, j + 1, ckey(#[trigger] out@[i])) by {
                        let w = choose|w: int| 0 <= w < j && #[trigger] in_group(ps, bugs, w, ckey(out@[i]));
                    }
                }
            },
            None => {
                let c = combine_group(packages, &kept, j, Ghost(bugs));
                let mut pos: usize = 0;
                while pos < out.len() && out[pos].source.order(&c.source) <= 0
                    invariant
                        pos <= out.len(),
                        forall|p: int| 0 <= p < pos ==> versioned_order((#[trigger] out@[p]).source@, c.source@) <= 0,
                    decreases out.len() - pos,
                {
                    pos = pos + 1;
                }
                proof {
                    lemma_combining_insert(out@, ps, bugs, j as int, pos as int, c);
                }
                out.insert(pos, c);
            },
        }
        j = j + 1;
    }
    proof {
        assert forall|t: int| 0 <= t < ps.len() && builds(#[trigger] ps[t], bugs) implies has_group(out@, okey(ps[t])) by {}
    }
    out
}


// ---------------------------------------------------------------------
// The outdated packages of binary packages
// ---------------------------------------------------------------------

/// The view of an outdated package.
pub open spec fn outdated_view(p: OutdatedPackage) -> ((Seq<char>, VersionModel), Suite, (Seq<char>, VersionModel), WBArchitecture) {
    (p.source@, p.suite, p.outdated_dependency@, p.architecture)
}

/// The outdated packages that one binary package gives: one per outdated
/// source it names, unless it is `Arch: all`, names none, or its source is
/// never rebuilt.
pub open spec fn outdated_packages_of_one(
    fields: Seq<Field>,
    b: BinaryPackage,
    sources: Map<Seq<char>, (bool, VersionModel)>,
    suite: Suite,
) -> Seq<((Seq<char>, VersionModel), Suite, (Seq<char>, VersionModel), WBArchitecture)> {
    let deps = dedup(outdated_of(fields, b, sources));
    let name = binary_source(b.package);
    if b.architecture == Architecture::All || deps.len() == 0 || skip_binnmu(name) {
        Seq::empty()
    } else {
        let arch = if sources.contains_key(name) && sources[name].0 {
            WBArchitecture::Any
        } else {
            WBArchitecture::Architecture(b.architecture)
        };
        deps.map_values(
            |d: (Seq<char>, VersionModel)| ((name, binary_source_version(b.package)), suite, d, arch),
        )
    }
}

/// The outdated packages that binary packages give, in their order.
pub open spec fn outdated_packages_of(
    fields: Seq<Field>,
    bins: Seq<BinaryPackage>,
    sources: Map<Seq<char>, (bool, VersionModel)>,
    suite: Suite,
) -> Seq<((Seq<char>, VersionModel), Suite, (Seq<char>, VersionModel), WBArchitecture)>
    decreases bins.len(),
{
    if bins.len() == 0 {
        Seq::empty()
    } else {
        outdated_packages_of(fields, bins.drop_last(), sources, suite) + outdated_packages_of_one(
            fields,
            bins.last(),
            sources,
            suite,
        )
    }
}

/// The outdated packages that the binary packages of a suite give.
pub fn outdated_packages(
    fields: &[Field],
    binaries: &[BinaryPackage],
    sources: &SourcePackages,
    suite: Suite,
) -> (r: Vec<OutdatedPackage>)
    ensures
        r@.map_values(|p: OutdatedPackage| outdated_view(p)) == outdated_packages_of(fields@, binaries@, sources@, suite),
{
    let mut out: Vec<OutdatedPackage> = Vec::new();
    let mut i: usize = 0;
    assert(binaries@.subrange(0, 0) =~= Seq::<BinaryPackage>::empty());
    assert(out@.map_values(|p: OutdatedPackage| outdated_view(p)) =~= Seq::empty());
    while i < binaries.len()
        invariant
            i <= binaries.len(),
            out@.map_values(|p: OutdatedPackage| outdated_view(p)) == outdated_packages_of(
                fields@,
                binaries@.subrange(0, i as int),
                sources@,
                suite,
            ),
        decreases binaries.len() - i,
    {
        let ghost prefix = binaries@.subrange(0, i + 1);
        assert(prefix.drop_last() =~= binaries@.subrange(0, i as int));
        assert(prefix.last() == binaries@[i as int]);
        let ghost before = out@.map_values(|p: OutdatedPackage| outdated_view(p));
        let ghost one = outdated_packages_of_one(fields@, binaries@[i as int], sources@, suite);
        match outdated_source(fields, &binaries[i], sources) {
            Some(o) => {
                // skip some packages that make no sense to binNMU
                if !source_skip_binnmu(o.source.package.as_str()) {
                    let ghost deps = versioned_view(o.built_using@);
                    let mut k: usize = 0;
                    while k < o.built_using.len()
                        invariant
                            k <= o.built_using.len(),
                            deps == versioned_view(o.built_using@),
                            out@.map_values(|p: OutdatedPackage| outdated_view(p)) == before + deps.subrange(
                                0,
                                k as int,
                            ).map_values(
                                |d: (Seq<char>, VersionModel)| (o.source@, suite, d, o.architecture),
                            ),
                        decreases o.built_using.len() - k,
                    {
                        let p = OutdatedPackage {
                            source: o.source.duplicate(),
                            suite,
                            outdated_dependency: o.built_using[k].duplicate(),
                            architecture: o.architecture,
                        };
                        let ghost pv = outdated_view(p);
                        let ghost old_out = out@;
                        out.push(p);
                        assert(out@.map_values(|p: OutdatedPackage| outdated_view(p)) =~= old_out.map_values(
                            |p: OutdatedPackage| outdated_view(p),
                        ).push(pv));
                        assert(deps[k as int] == o.built_using@[k as int]@);
                        assert(deps.subrange(0, k + 1).map_values(
                            |d: (Seq<char>, VersionModel)| (o.source@, suite, d, o.architecture),
                        ) =~= deps.subrange(0, k as int).map_values(
                            |d: (Seq<char>, VersionModel)| (o.source@, suite, d, o.architecture),
                        ).push(pv));
                        k = k + 1;
                    }
                    assert(deps.subrange(0, deps.len() as int) =~= deps);
                    assert(one =~= deps.map_values(
                        |d: (Seq<char>, VersionModel)| (o.source@, suite, d, o.architecture),
                    ));
                } else {
                    assert(one =~= Seq::empty());
                    assert(before + one =~= before);
                }
            },
            None => {
                assert(one =~= Seq::empty());
                assert(before + one =~= before);
            },
        }
        i = i + 1;
    }
    assert(binaries@.subrange(0, binaries.len() as int) =~= binaries@);
    out
}

// ---------------------------------------------------------------------
// The rebuilds
// ---------------------------------------------------------------------

/// A source whose binaries need a newer version of a binary package
/// installed for the rebuild.
#[derive(Debug)]
pub struct RequiresExtraDepends {
    pub source: &'static str,
    pub package: &'static str,
}

/// The binary package that rebuilds for an outdated source need in a
/// newer version.
pub open spec fn extra_depends_package(source: Seq<char>) -> Option<Seq<char>> {
    if source == "binutils"@ {
        Some("binutils"@)
    } else if source == "dpkg"@ {
        Some("dpkg-dev"@)
    } else if source == "glibc"@ {
        Some("libc-bin"@)
    } else if source == "perl"@ {
        Some("perl-base"@)
    } else {
        None
    }
}

/// The sources whose outdated versions need an extra dependency, sorted
/// by source.
pub fn requires_extra_depends() -> (r: Vec<RequiresExtraDepends>)
    ensures
        r@.map_values(|x: RequiresExtraDepends| (x.source@, x.package@)) == seq![
            ("binutils"@, "binutils"@),
            ("dpkg"@, "dpkg-dev"@),
            ("glibc"@, "libc-bin"@),
            ("perl"@, "perl-base"@),
        ],
        forall|i: int| 0 <= i < r@.len() ==> extra_depends_package(r@[i].source@) == Some(r@[i].package@),
{
    let mut v = Vec::new();
    v.push(RequiresExtraDepends { source: "binutils", package: "binutils" });
    v.push(RequiresExtraDepends { source: "dpkg", package: "dpkg-dev" });
    v.push(RequiresExtraDepends { source: "glibc", package: "libc-bin" });
    v.push(RequiresExtraDepends { source: "perl", package: "perl-base" });
    proof {
        reveal_strlit("binutils");
        reveal_strlit("dpkg");
        reveal_strlit("dpkg-dev");
        reveal_strlit("glibc");
        reveal_strlit("libc-bin");
        reveal_strlit("perl");
        reveal_strlit("perl-base");
        assert("dpkg"@.len() != "binutils"@.len());
        assert("glibc"@.len() != "binutils"@.len());
        assert("glibc"@[0] != "dpkg"@[0]);
        assert("perl"@.len() != "binutils"@.len());
        assert("perl"@[0] != "dpkg"@[0]);
        assert("perl"@.len() != "glibc"@.len());
    }
    assert(v@.map_values(|x: RequiresExtraDepends| (x.source@, x.package@)) =~= seq![
        ("binutils"@, "binutils"@),
        ("dpkg"@, "dpkg-dev"@),
        ("glibc"@, "libc-bin"@),
        ("perl"@, "perl-base"@),
    ]);
    v
}

/// The extra dependency for an outdated source, if it needs one.
fn find_extra_depends(source: &str) -> (r: Option<&'static str>)
    ensures
        match extra_depends_package(source@) {
            Some(p) => r matches Some(q) && q@ == p,
            None => r is None,
        },
{
    if crate::text::str_eq(source, "binutils") {
        Some("binutils")
    } else if crate::text::str_eq(source, "dpkg") {
        Some("dpkg-dev")
    } else if crate::text::str_eq(source, "glibc") {
        Some("libc-bin")
    } else if crate::text::str_eq(source, "perl") {
        Some("perl-base")
    } else {
        None
    }
}

/// The names of fields, separated by `/`.
pub open spec fn fields_text(fields: Seq<Field>) -> Seq<char> {
    join(fields.map_values(|f: Field| field_name(f)), "/"@)
}

/// An outdated source as `source/version`.
pub open spec fn dependency_text(d: (Seq<char>, VersionModel)) -> Seq<char> {
    d.0 + "/"@ + version_text(d.1)
}

/// The message of a rebuild for outdated sources.
pub open spec fn eso_message(fields: Seq<Field>, deps: Seq<(Seq<char>, VersionModel)>) -> Seq<char> {
    "Rebuild for outdated "@ + fields_text(fields) + " ("@ + join(
        deps.map_values(|d: (Seq<char>, VersionModel)| dependency_text(d)),
        ", "@,
    ) + ")"@
}

/// The extra dependencies of a rebuild: for each outdated source that
/// needs one and that has a current version, its package at least in the
/// current version.
pub open spec fn extra_depends_of(deps: Seq<(Seq<char>, VersionModel)>, sources: Map<Seq<char>, (bool, VersionModel)>) -> Seq<
    Seq<char>,
>
    decreases deps.len(),
{
    if deps.len() == 0 {
        Seq::empty()
    } else {
        let before = extra_depends_of(deps.drop_last(), sources);
        let d = deps.last();
        match extra_depends_package(d.0) {
            Some(p) => if sources.contains_key(d.0) {
                before.push(p + " (>= "@ + version_text(sources[d.0].1) + ")"@)
            } else {
                before
            },
            None => before,
        }
    }
}

/// The fields looked at: `Built-Using` where none is chosen.
pub open spec fn effective_fields(fields: Seq<Field>) -> Seq<Field> {
    if fields.len() == 0 {
        seq![Field::BuiltUsing]
    } else {
        fields
    }
}

/// The rebuild of a combined package.
pub open spec fn eso_binnmu(
    c: CombinedOutdatedPackage,
    fields: Seq<Field>,
    build_priority: i32,
    sources: Map<Seq<char>, (bool, VersionModel)>,
) -> BinNMUModel {
    let deps = versioned_view(c.outdated_dependencies@);
    let extra = extra_depends_of(deps, sources);
    BinNMUModel {
        source: SourceModel {
            source: c.source.package@,
            version: Some(version_text(c.source.version@)),
            architectures: seq![c.architecture],
            suite: Some(suite_text(c.suite)),
        },
        message: eso_message(effective_fields(fields), deps),
        nmu_version: None,
        extra_depends: if extra.len() == 0 {
            None
        } else {
            Some(join(extra, ", "@))
        },
        priority: Some(build_priority),
        dep_wait: None,
    }
}

/// The text of the rebuild of a combined package, given its parts.
fn eso_command(
    c: &CombinedOutdatedPackage,
    fields_line: &String,
    build_priority: i32,
    sources: &SourcePackages,
    Ghost(fields): Ghost<Seq<Field>>,
) -> (r: Result<WBCommand, Error>)
    requires
        fields_line@ == fields_text(effective_fields(fields)),
    ensures
        bad_architecture(c.architecture, true) ==> (r matches Err(Error::InvalidArchitecture(a, n)) && a
            == c.architecture && n@ == "nmu"@),
        !bad_architecture(c.architecture, true) ==> (r matches Ok(w) && w@ == binnmu_text(
            eso_binnmu(*c, fields, build_priority, sources@),
        )),
{
    let ghost deps = versioned_view(c.outdated_dependencies@);
    let version = c.source.version.to_string();
    let suite = c.suite.to_string();
    let mut archs: Vec<WBArchitecture> = Vec::new();
    archs.push(c.architecture);
    let mut source = SourceSpecifier::new(c.source.package.as_str());
    source.with_version(version.as_str());
    source.with_suite(suite.as_str());
    source.with_architectures(archs.as_slice());
    assert(source@.architectures =~= seq![c.architecture]);
    // the message
    let mut texts: Vec<String> = Vec::new();
    let mut extra: Vec<String> = Vec::new();
    let mut i: usize = 0;
    assert(deps.subrange(0, 0) =~= Seq::<(Seq<char>, VersionModel)>::empty());
    while i < c.outdated_dependencies.len()
        invariant
            i <= c.outdated_dependencies.len(),
            deps == versioned_view(c.outdated_dependencies@),
            views(texts@) == deps.subrange(0, i as int).map_values(|d: (Seq<char>, VersionModel)| dependency_text(d)),
            views(extra@) == extra_depends_of(deps.subrange(0, i as int), sources@),
        decreases c.outdated_dependencies.len() - i,
    {
        let d = &c.outdated_dependencies[i];
        assert(deps[i as int] == d@);
        let ghost prefix = deps.subrange(0, i + 1);
        assert(prefix.drop_last() =~= deps.subrange(0, i as int));
        assert(prefix.last() == d@);
        let mut t = d.package.to_string();
        t.append("/");
        let vt = d.version.to_string();
        t.append(vt.as_str());
        let ghost before = texts@;
        texts.push(t);
        assert(views(texts@) =~= views(before).push(t@));
        assert(prefix.map_values(|d: (Seq<char>, VersionModel)| dependency_text(d)) =~= deps.subrange(
            0,
            i as int,
        ).map_values(|d: (Seq<char>, VersionModel)| dependency_text(d)).push(dependency_text(d@)));
        if let Some(required) = find_extra_depends(d.package.as_str()) {
            if let Some(current) = sources.version(d.package.as_str()) {
                let mut e = String::from_str(required);
                e.append(" (>= ");
                let cv = current.to_string();
                e.append(cv.as_str());
                e.append(")");
                let ghost before_e = extra@;
                extra.push(e);
                assert(views(extra@) =~= views(before_e).push(e@));
            }
        }
        i = i + 1;
    }
    assert(deps.subrange(0, deps.len() as int) =~= deps);
    let joined = join_strings(&texts, ", ");
    let mut message = String::from_str("Rebuild for outdated ");
    message.append(fields_line.as_str());
    message.append(" (");
    message.append(joined.as_str());
    message.append(")");
    let extra_line = join_strings(&extra, ", ");
    assert(first_bad_architecture(seq![c.architecture], true) == (if bad_architecture(c.architecture, true) {
        Some(c.architecture)
    } else {
        None
    })) by {
        reveal_with_fuel(first_bad_architecture, 2);
        assert(seq![c.architecture].drop_first() =~= Seq::<WBArchitecture>::empty());
        assert(seq![c.architecture][0] == c.architecture);
    }
    let mut binnmu = match BinNMU::new(&source, message.as_str()) {
        Ok(b) => b,
        Err(e) => {
            return Err(e);
        },
    };
    binnmu.with_build_priority(build_priority);
    if extra.len() > 0 {
        binnmu.with_extra_depends(extra_line.as_str());
    }
    let r = binnmu.build();
    assert(binnmu@ == eso_binnmu(*c, fields, build_priority, sources@));
    Ok(r)
}

/// The names of the fields, separated by `/`.
fn fields_string(fields: &[Field]) -> (r: String)
    ensures
        r@ == fields_text(fields@),
{
    let mut names: Vec<String> = Vec::new();
    let mut i: usize = 0;
    while i < fields.len()
        invariant
            i <= fields.len(),
            views(names@) == fields@.subrange(0, i as int).map_values(|f: Field| field_name(f)),
        decreases fields.len() - i,
    {
        let n = String::from_str(fields[i].as_str());
        let ghost before = names@;
        names.push(n);
        assert(views(names@) =~= views(before).push(n@));
        assert(fields@.subrange(0, i + 1).map_values(|f: Field| field_name(f)) =~= fields@.subrange(
            0,
            i as int,
        ).map_values(|f: Field| field_name(f)).push(field_name(fields@[i as int])));
        i = i + 1;
    }
    assert(fields@.subrange(0, fields.len() as int) =~= fields@);
    join_strings(&names, "/")
}

/// The rebuilds of the combined packages, with the build priority; an
/// error at the first package whose architecture `nmu` cannot take.
pub fn generate_wb_commands(
    combined: &[CombinedOutdatedPackage],
    fields: &[Field],
    build_priority: i32,
    sources: &SourcePackages,
) -> (r: Result<Vec<WBCommand>, Error>)
    ensures
        match r {
            Ok(v) => v@.len() == combined@.len() && forall|i: int|
                0 <= i < combined@.len() ==> !bad_architecture((#[trigger] combined@[i]).architecture, true)
                    && v@[i]@ == binnmu_text(eso_binnmu(combined@[i], fields@, build_priority, sources@)),
            Err(e) => exists|i: int|
                0 <= i < combined@.len() && bad_architecture((#[trigger] combined@[i]).architecture, true)
                    && (e matches Error::InvalidArchitecture(a, c) && a == combined@[i].architecture && c@ == "nmu"@),
        },
{
    let mut effective: Vec<Field> = Vec::new();
    if fields.len() == 0 {
        effective.push(Field::BuiltUsing);
    } else {
        let mut k: usize = 0;
        while k < fields.len()
            invariant
                k <= fields.len(),
                effective@ == fields@.subrange(0, k as int),
            decreases fields.len() - k,
        {
            effective.push(fields[k]);
            assert(effective@ =~= fields@.subrange(0, k + 1));
            k = k + 1;
        }
        assert(fields@.subrange(0, fields.len() as int) =~= fields@);
    }
    assert(effective@ =~= effective_fields(fields@));
    let line = fields_string(effective.as_slice());
    let mut out: Vec<WBCommand> = Vec::new();
    let mut i: usize = 0;
    while i < combined.len()
        invariant
            i <= combined.len(),
            line@ == fields_text(effective_fields(fields@)),
            out@.len() == i,
            forall|j: int|
                0 <= j < i ==> !bad_architecture((#[trigger] combined@[j]).architecture, true) && out@[j]@
                    == binnmu_text(eso_binnmu(combined@[j], fields@, build_priority, sources@)),
        decreases combined.len() - i,
    {
        match eso_command(&combined[i], &line, build_priority, sources, Ghost(fields@)) {
            Ok(w) => {
                out.push(w);
            },
            Err(e) => {
                assert(bad_architecture(combined@[i as int].architecture, true));
                return Err(e);
            },
        }
        i = i + 1;
    }
    Ok(out)
}

} // verus!
