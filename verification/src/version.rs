//! Versions of Debian packages.
//!
//! A version consists of an optional epoch, the upstream version and an
//! optional Debian revision, written `epoch:upstream-revision`.

use std::cmp::Ordering;

use vstd::prelude::*;

use crate::error::ParseError;
use crate::order::{
    lemma_parts_order_antisym, lemma_parts_order_leading_number, lemma_parts_order_refl, lemma_parts_order_trans,
    nondigit_order, nondigit_order_str, parts_order, parts_order_str,
};
use crate::text::{
    chars_of, decimal, first_index, is_alphanumeric, is_digit, last_index, lemma_first_index,
    lemma_first_index_unique, lemma_last_index_unique, parse_u32, parse_u32_range, push_char,
    push_decimal, rfind_in, rsplit_once, split_once, string_of, alphanumeric,
    all_digits, digits_value, digit_char, digit_value,
};

verus! {

/// Version errors
#[derive(Clone, Copy, Debug, PartialEq, Eq, Structural)]
pub enum VersionError {
    /// Epoch is invalid
    InvalidEpoch,
    /// Upstream version is invalid
    InvalidUpstreamVersion,
    /// Debian revision is invalid
    InvalidDebianRevision,
}

/// The mathematical content of a version.
pub struct VersionModel {
    pub epoch: Option<u32>,
    pub upstream: Seq<char>,
    pub revision: Option<Seq<char>>,
}

/// A version number of a Debian package
///
/// Version numbers consists of three components:
/// * an optional epoch
/// * the upstream version
/// * an optional debian revision
#[derive(Clone, Debug)]
pub struct PackageVersion {
    epoch: Option<u32>,
    upstream_version: String,
    debian_revision: Option<String>,
}

/// The view of an optional string.
pub open spec fn opt_string_view(o: Option<String>) -> Option<Seq<char>> {
    match o {
        Some(s) => Some(s@),
        None => None,
    }
}

/// The view of an optional string slice.
pub open spec fn opt_str_view(o: Option<&str>) -> Option<Seq<char>> {
    match o {
        Some(s) => Some(s@),
        None => None,
    }
}

impl View for PackageVersion {
    type V = VersionModel;

    closed spec fn view(&self) -> VersionModel {
        VersionModel {
            epoch: self.epoch,
            upstream: self.upstream_version@,
            revision: opt_string_view(self.debian_revision),
        }
    }
}

/// The view of a result holding a version.
pub open spec fn version_result<E>(r: Result<PackageVersion, E>) -> Result<VersionModel, E> {
    match r {
        Ok(v) => Ok(v@),
        Err(e) => Err(e),
    }
}

/// Characters allowed in a Debian revision: alphanumerics and `.`, `+`, `~`.
pub open spec fn revision_char_ok(c: char) -> bool {
    alphanumeric(c) || c == '.' || c == '+' || c == '~'
}

/// Characters allowed in an upstream version: those of a revision, `-`
/// where there is a revision, and `:` where there is an epoch.
pub open spec fn upstream_char_ok(c: char, has_epoch: bool, has_revision: bool) -> bool {
    revision_char_ok(c) || (has_revision && c == '-') || (has_epoch && c == ':')
}

pub open spec fn valid_upstream(u: Seq<char>, has_epoch: bool, has_revision: bool) -> bool {
    u.len() > 0 && forall|i: int|
        0 <= i < u.len() ==> upstream_char_ok(#[trigger] u[i], has_epoch, has_revision)
}

pub open spec fn valid_revision(r: Seq<char>) -> bool {
    r.len() > 0 && forall|i: int| 0 <= i < r.len() ==> revision_char_ok(#[trigger] r[i])
}

/// What `PackageVersion::new` gives for the components.
pub open spec fn new_version(epoch: Option<u32>, u: Seq<char>, r: Option<Seq<char>>) -> Result<
    VersionModel,
    VersionError,
> {
    if !valid_upstream(u, epoch is Some, r is Some) {
        Err(VersionError::InvalidUpstreamVersion)
    } else if r is Some && !valid_revision(r->0) {
        Err(VersionError::InvalidDebianRevision)
    } else {
        Ok(VersionModel { epoch, upstream: u, revision: r })
    }
}

impl VersionModel {
    /// The components form a version that `PackageVersion::new` accepts.
    pub open spec fn valid(self) -> bool {
        new_version(self.epoch, self.upstream, self.revision) == Ok::<VersionModel, VersionError>(self)
    }

    pub open spec fn epoch_or_zero(self) -> u32 {
        match self.epoch {
            Some(e) => e,
            None => 0,
        }
    }
}

/// The components split off the text after the epoch: the revision
/// starts after the last `-`.
pub open spec fn parse_after_epoch(epoch: Option<u32>, s: Seq<char>) -> Result<
    VersionModel,
    ParseError,
> {
    let parts = match rsplit_once(s, '-') {
        Some((u, r)) => (u, Some(r)),
        None => (s, None),
    };
    match new_version(epoch, parts.0, parts.1) {
        Ok(m) => Ok(m),
        Err(e) => Err(ParseError::InvalidVersion(e)),
    }
}

/// Parsing of a version string: the epoch ends at the first `:`, the
/// revision starts after the last `-`.
pub open spec fn parse_version(s: Seq<char>) -> Result<VersionModel, ParseError> {
    match split_once(s, ':') {
        Some((e, rest)) => match parse_u32(e) {
            Some(epoch) => parse_after_epoch(Some(epoch), rest),
            None => Err(ParseError::InvalidVersion(VersionError::InvalidEpoch)),
        },
        None => parse_after_epoch(None, s),
    }
}

/// The text of a version: `epoch:upstream-revision`, each separator only
/// where its component is there.
pub open spec fn version_text(m: VersionModel) -> Seq<char> {
    (match m.epoch {
        Some(e) => decimal(e as nat).push(':'),
        None => Seq::empty(),
    }) + m.upstream + (match m.revision {
        Some(r) => seq!['-'] + r,
        None => Seq::empty(),
    })
}

/// The order on versions: by epoch (a missing epoch counts as 0), then by
/// upstream version, then by revision, a missing revision sorting first.
pub open spec fn version_order(a: VersionModel, b: VersionModel) -> int {
    if a.epoch_or_zero() < b.epoch_or_zero() {
        -1
    } else if a.epoch_or_zero() > b.epoch_or_zero() {
        1
    } else if parts_order(a.upstream, b.upstream) != 0 {
        parts_order(a.upstream, b.upstream)
    } else {
        match (a.revision, b.revision) {
            (None, None) => 0,
            (None, Some(_)) => -1,
            (Some(_), None) => 1,
            (Some(x), Some(y)) => parts_order(x, y),
        }
    }
}

/// Index of the last `+b` in `s`, or `-1` where there is none.
pub open spec fn last_binnmu_marker(s: Seq<char>) -> int
    decreases s.len(),
{
    if s.len() < 2 {
        -1
    } else if s[s.len() - 2] == '+' && s.last() == 'b' {
        s.len() - 2
    } else {
        last_binnmu_marker(s.drop_last())
    }
}

/// The component that carries the binNMU suffix: the revision, or the
/// upstream version of a native version.
pub open spec fn binnmu_base(m: VersionModel) -> Seq<char> {
    match m.revision {
        Some(r) => r,
        None => m.upstream,
    }
}

/// The number after the last `+b`, where it is a valid `u32`.
pub open spec fn binnmu_of(m: VersionModel) -> Option<u32> {
    let s = binnmu_base(m);
    let i = last_binnmu_marker(s);
    if i >= 0 {
        parse_u32(s.subrange(i + 2, s.len() as int))
    } else {
        None
    }
}

/// `s` cut before its last `+b`.
pub open spec fn cut_binnmu(s: Seq<char>) -> Seq<char> {
    let i = last_binnmu_marker(s);
    if i >= 0 {
        s.subrange(0, i)
    } else {
        s
    }
}

/// The version without anything from the last `+b` on.
pub open spec fn without_binnmu(m: VersionModel) -> VersionModel {
    match m.revision {
        Some(r) => VersionModel { epoch: m.epoch, upstream: m.upstream, revision: Some(cut_binnmu(r)) },
        None => VersionModel { epoch: m.epoch, upstream: cut_binnmu(m.upstream), revision: None },
    }
}

pub proof fn lemma_last_binnmu_marker(s: Seq<char>)
    ensures
        last_binnmu_marker(s) == -1 || 0 <= last_binnmu_marker(s) <= s.len() - 2,
        last_binnmu_marker(s) >= 0 ==> s[last_binnmu_marker(s)] == '+' && s[last_binnmu_marker(s) + 1] == 'b',
        forall|j: int| last_binnmu_marker(s) < j < s.len() - 1 ==> !(#[trigger] s[j] == '+' && s[j + 1] == 'b'),
    decreases s.len(),
{
    if s.len() >= 2 && !(s[s.len() - 2] == '+' && s.last() == 'b') {
        let t = s.drop_last();
        lemma_last_binnmu_marker(t);
        assert forall|j: int| last_binnmu_marker(s) < j < s.len() - 1 implies !(#[trigger] s[j] == '+' && s[j + 1] == 'b') by {
            if j < s.len() - 2 {
                assert(s[j] == t[j] && s[j + 1] == t[j + 1]);
            }
        }
    }
}

/// Position of the last `+b` in `v[0..to]`.
fn rfind_binnmu_marker(v: &Vec<char>, to: usize) -> (r: Option<usize>)
    requires
        to <= v.len(),
    ensures
        match r {
            Some(i) => i + 2 <= to && i == last_binnmu_marker(v@.subrange(0, to as int)),
            None => last_binnmu_marker(v@.subrange(0, to as int)) == -1,
        },
{
    let ghost s = v@.subrange(0, to as int);
    let mut e = to;
    while e >= 2
        invariant
            e <= to <= v.len(),
            s == v@.subrange(0, to as int),
            last_binnmu_marker(s) == last_binnmu_marker(v@.subrange(0, e as int)),
        decreases e,
    {
        let ghost t = v@.subrange(0, e as int);
        if v[e - 2] == '+' && v[e - 1] == 'b' {
            return Some(e - 2);
        }
        assert(t.drop_last() =~= v@.subrange(0, e - 1));
        e = e - 1;
    }
    None
}

impl PackageVersion {
    /// Create a new version struct from the individual components.
    pub fn new(epoch: Option<u32>, upstream_version: &str, debian_revision: Option<&str>) -> (r:
        Result<Self, VersionError>)
        ensures
            version_result(r) == new_version(epoch, upstream_version@, opt_str_view(debian_revision)),
    {
        let has_revision = debian_revision.is_some();
        let has_epoch = epoch.is_some();
        let u = chars_of(upstream_version);
        if u.len() == 0 {
            return Err(VersionError::InvalidUpstreamVersion);
        }
        let mut i: usize = 0;
        while i < u.len()
            invariant
                u@ == upstream_version@,
                i <= u.len(),
                has_revision == debian_revision is Some,
                has_epoch == epoch is Some,
                forall|j: int| 0 <= j < i ==> upstream_char_ok(#[trigger] u@[j], has_epoch, has_revision),
            decreases u.len() - i,
        {
            let c = u[i];
            let ok = is_alphanumeric(c) || c == '.' || c == '+' || c == '~' || (has_revision && c == '-')
                || (has_epoch && c == ':');
            if !ok {
                return Err(VersionError::InvalidUpstreamVersion);
            }
            i = i + 1;
        }
        assert(valid_upstream(upstream_version@, epoch is Some, debian_revision is Some));
        let revision = match debian_revision {
            Some(rev) => {
                let rv = chars_of(rev);
                if rv.len() == 0 {
                    return Err(VersionError::InvalidDebianRevision);
                }
                let mut k: usize = 0;
                while k < rv.len()
                    invariant
                        rv@ == rev@,
                        debian_revision == Some(rev),
                        valid_upstream(upstream_version@, epoch is Some, debian_revision is Some),
                        k <= rv.len(),
                        forall|j: int| 0 <= j < k ==> revision_char_ok(#[trigger] rv@[j]),
                    decreases rv.len() - k,
                {
                    let c = rv[k];
                    if !(is_alphanumeric(c) || c == '.' || c == '+' || c == '~') {
                        return Err(VersionError::InvalidDebianRevision);
                    }
                    k = k + 1;
                }
                Some(string_of(&rv, 0, rv.len()))
            },
            None => None,
        };
        proof {
            assert(u@.subrange(0, u@.len() as int) =~= u@);
        }
        let r = PackageVersion {
            epoch,
            upstream_version: string_of(&u, 0, u.len()),
            debian_revision: revision,
        };
        proof {
            if let Some(rev) = debian_revision {
                assert(opt_string_view(r.debian_revision) == Some(rev@)) by {
                    assert(rev@.subrange(0, rev@.len() as int) =~= rev@);
                }
            }
        }
        Ok(r)
    }

    /// Parses a version written `epoch:upstream-revision`.
    pub fn try_from(value: &str) -> (r: Result<Self, ParseError>)
        ensures
            version_result(r) == parse_version(value@),
    {
        let v = chars_of(value);
        let colon = crate::text::find_char(&v, ':');
        let ghost s = v@;
        let mut epoch: Option<u32> = None;
        let mut rest_start: usize = 0;
        if colon < v.len() {
            proof {
                lemma_first_index(s, ':');
                assert(s.subrange(0, colon as int) =~= v@.subrange(0, colon as int));
            }
            match parse_u32_range(&v, 0, colon) {
                Some(e) => {
                    epoch = Some(e);
                    rest_start = colon + 1;
                },
                None => {
                    return Err(ParseError::InvalidVersion(VersionError::InvalidEpoch));
                },
            }
        }
        let ghost rest = v@.subrange(rest_start as int, v@.len() as int);
        assert(colon >= v.len() ==> rest =~= s);
        let (up_end, rev) = match rfind_in(&v, rest_start, v.len(), '-') {
            Some(dash) => (dash, Some(string_of(&v, dash + 1, v.len()))),
            None => (v.len(), None),
        };
        let up = string_of(&v, rest_start, up_end);
        proof {
            match rsplit_once(rest, '-') {
                Some(p) => {
                    assert(p.0 =~= up@);
                    assert(p.1 =~= rev->0@);
                },
                None => {
                    assert(up@ =~= rest);
                },
            }
        }
        let r = match &rev {
            Some(rs) => PackageVersion::new(epoch, up.as_str(), Some(rs.as_str())),
            None => PackageVersion::new(epoch, up.as_str(), None),
        };
        match r {
            Ok(x) => Ok(x),
            Err(e) => Err(ParseError::InvalidVersion(e)),
        }
    }

    /// The text of the version, `epoch:upstream-revision`.
    pub fn to_string(&self) -> (r: String)
        ensures
            r@ == version_text(self@),
    {
        let mut s = String::new();
        if let Some(e) = self.epoch {
            push_decimal(&mut s, e as u64);
            push_char(&mut s, ':');
        }
        s.append(self.upstream_version.as_str());
        if let Some(rev) = &self.debian_revision {
            push_char(&mut s, '-');
            s.append(rev.as_str());
        }
        assert(s@ =~= version_text(self@));
        s
    }

    /// The epoch, if there is one.
    pub fn epoch(&self) -> (r: Option<u32>)
        ensures
            r == self@.epoch,
    {
        self.epoch
    }

    /// The upstream version.
    pub fn upstream_version(&self) -> (r: &str)
        ensures
            r@ == self@.upstream,
    {
        self.upstream_version.as_str()
    }

    /// The Debian revision, if there is one.
    pub fn debian_revision(&self) -> (r: Option<&str>)
        ensures
            opt_str_view(r) == self@.revision,
    {
        match &self.debian_revision {
            Some(rev) => Some(rev.as_str()),
            None => None,
        }
    }

    /// Returns whether version is a native version, i.e., there is no revision.
    pub fn is_native(&self) -> (r: bool)
        ensures
            r == (self@.revision is None),
    {
        self.debian_revision.is_none()
    }

    /// Return whether the version has an epoch.
    pub fn has_epoch(&self) -> (r: bool)
        ensures
            r == (self@.epoch is Some),
    {
        self.epoch.is_some()
    }

    /// Return epoch of 0 if none set.
    pub fn epoch_or_0(&self) -> (r: u32)
        ensures
            r == self@.epoch_or_zero(),
    {
        match self.epoch {
            Some(e) => e,
            None => 0,
        }
    }

    /// Return whether this version has a binNMU version, i.e., ends in +bX for some integer X.
    pub fn has_binnmu_version(&self) -> (r: bool)
        ensures
            r == (binnmu_of(self@) is Some),
    {
        self.binnmu_version().is_some()
    }

    /// Return binNMU version if available.
    pub fn binnmu_version(&self) -> (r: Option<u32>)
        ensures
            r == binnmu_of(self@),
    {
        let base = match &self.debian_revision {
            Some(rev) => chars_of(rev.as_str()),
            None => chars_of(self.upstream_version.as_str()),
        };
        assert(base@.subrange(0, base@.len() as int) =~= base@);
        match rfind_binnmu_marker(&base, base.len()) {
            Some(i) => parse_u32_range(&base, i + 2, base.len()),
            None => None,
        }
    }

    /// Obtain version without the binNMU version.
    pub fn without_binnmu_version(self) -> (r: Self)
        ensures
            r@ == without_binnmu(self@),
    {
        let PackageVersion { epoch, upstream_version, debian_revision } = self;
        match debian_revision {
            Some(rev) => {
                let rv = chars_of(rev.as_str());
                assert(rv@.subrange(0, rv@.len() as int) =~= rv@);
                let cut = match rfind_binnmu_marker(&rv, rv.len()) {
                    Some(i) => string_of(&rv, 0, i),
                    None => rev,
                };
                PackageVersion { epoch, upstream_version, debian_revision: Some(cut) }
            },
            None => {
                let uv = chars_of(upstream_version.as_str());
                assert(uv@.subrange(0, uv@.len() as int) =~= uv@);
                let cut = match rfind_binnmu_marker(&uv, uv.len()) {
                    Some(i) => string_of(&uv, 0, i),
                    None => upstream_version,
                };
                PackageVersion { epoch, upstream_version: cut, debian_revision: None }
            },
        }
    }

    /// A copy of the version with the same components.
    pub fn duplicate(&self) -> (r: Self)
        ensures
            r@ == self@,
    {
        PackageVersion {
            epoch: self.epoch,
            upstream_version: self.upstream_version.clone(),
            debian_revision: match &self.debian_revision {
                Some(rev) => Some(rev.clone()),
                None => None,
            },
        }
    }

    /// Obtain version without the binNMU version.
    pub fn clone_without_binnmu_version(&self) -> (r: Self)
        ensures
            r@ == without_binnmu(self@),
    {
        self.duplicate().without_binnmu_version()
    }

    /// The order of two versions as a sign: negative, zero or positive.
    pub fn order(&self, other: &Self) -> (r: i8)
        ensures
            r == version_order(self@, other@),
    {
        let a = self.epoch_or_0();
        let b = other.epoch_or_0();
        if a < b {
            return -1;
        }
        if a > b {
            return 1;
        }
        let c = parts_order_str(self.upstream_version.as_str(), other.upstream_version.as_str());
        if c != 0 {
            return c;
        }
        match (&self.debian_revision, &other.debian_revision) {
            (None, None) => 0,
            (None, Some(_)) => -1,
            (Some(_), None) => 1,
            (Some(x), Some(y)) => parts_order_str(x.as_str(), y.as_str()),
        }
    }
}


// ---------------------------------------------------------------------
// Laws
// ---------------------------------------------------------------------

/// The order on versions is antisymmetric: swapping the operands flips
/// the sign.
pub proof fn lemma_version_order_antisym(a: VersionModel, b: VersionModel)
    ensures
        version_order(a, b) == -version_order(b, a),
{
    lemma_parts_order_antisym(a.upstream, b.upstream);
    if a.revision is Some && b.revision is Some {
        lemma_parts_order_antisym(a.revision->0, b.revision->0);
    }
}

/// Every version is equal to itself.
pub proof fn lemma_version_order_refl(a: VersionModel)
    ensures
        version_order(a, a) == 0,
{
    lemma_version_order_antisym(a, a);
}

/// The components that `PackageVersion::new` accepts are those that Debian
/// policy allows: a non-empty upstream version of alphanumerics, `.`, `+`
/// and `~`, with `-` only where there is a revision and `:` only where there
/// is an epoch; and a non-empty revision, if any, of alphanumerics, `.`, `+`
/// and `~` (so `1~bpo12+1` is a revision, and no revision holds a `-` or a
/// `:`). Accepted components are kept as they are.
pub proof fn lemma_new_version_accepts(epoch: Option<u32>, u: Seq<char>, r: Option<Seq<char>>)
    ensures
        new_version(epoch, u, r) is Ok <==> ({
            &&& u.len() > 0
            &&& forall|i: int|
                0 <= i < u.len() ==> (alphanumeric(#[trigger] u[i]) || u[i] == '.' || u[i] == '+' || u[i] == '~'
                    || (r is Some && u[i] == '-') || (epoch is Some && u[i] == ':'))
            &&& r matches Some(x) ==> (x.len() > 0 && forall|i: int|
                0 <= i < x.len() ==> (alphanumeric(#[trigger] x[i]) || x[i] == '.' || x[i] == '+' || x[i] == '~'))
        }),
        new_version(epoch, u, r) is Ok ==> new_version(epoch, u, r) == Ok::<VersionModel, VersionError>(
            VersionModel { epoch, upstream: u, revision: r },
        ),
        new_version(epoch, u, r) is Ok ==> (r matches Some(x) ==> forall|i: int|
            0 <= i < x.len() ==> #[trigger] x[i] != '-' && x[i] != ':'),
{
    if new_version(epoch, u, r) is Ok {
        if let Some(x) = r {
            assert forall|i: int| 0 <= i < x.len() implies #[trigger] x[i] != '-' && x[i] != ':' by {
                assert(revision_char_ok(x[i]));
            }
        }
    }
}

/// With equal epochs, versions whose upstream versions differ in order are
/// ordered by their upstream versions, whatever their revisions; only where
/// the upstream versions tie does the revision decide, a missing revision
/// sorting before any other.
pub proof fn lemma_version_order_upstream_first(a: VersionModel, b: VersionModel)
    requires
        a.epoch_or_zero() == b.epoch_or_zero(),
    ensures
        parts_order(a.upstream, b.upstream) < 0 ==> version_order(a, b) < 0,
        parts_order(a.upstream, b.upstream) > 0 ==> version_order(a, b) > 0,
        parts_order(a.upstream, b.upstream) == 0 ==> (match (a.revision, b.revision) {
            (Some(x), Some(y)) => version_order(a, b) == parts_order(x, y),
            (None, Some(_)) => version_order(a, b) < 0,
            (Some(_), None) => version_order(a, b) > 0,
            (None, None) => version_order(a, b) == 0,
        }),
{
}

/// With equal epochs, a version whose upstream version starts with a
/// smaller number sorts first, whatever follows that number and whatever
/// the revisions: `1.0-2` sorts before `2.0-1`.
pub proof fn lemma_version_order_leading_number(
    a: VersionModel,
    b: VersionModel,
    x: Seq<char>,
    s: Seq<char>,
    y: Seq<char>,
    t: Seq<char>,
)
    requires
        a.epoch_or_zero() == b.epoch_or_zero(),
        a.upstream == x + s,
        b.upstream == y + t,
        x.len() > 0,
        y.len() > 0,
        all_digits(x),
        all_digits(y),
        s.len() == 0 || !is_digit(s[0]),
        t.len() == 0 || !is_digit(t[0]),
        digits_value(x) <= u64::MAX,
        digits_value(y) <= u64::MAX,
        digits_value(x) < digits_value(y),
    ensures
        version_order(a, b) < 0,
        version_order(b, a) > 0,
{
    lemma_parts_order_leading_number(x, s, y, t);
    lemma_parts_order_leading_number(y, t, x, s);
    lemma_version_order_upstream_first(a, b);
    lemma_version_order_upstream_first(b, a);
}

/// Versions with different epochs are ordered by their epochs (a missing
/// epoch counting as 0), whatever else they hold.
pub proof fn lemma_version_order_epoch(a: VersionModel, b: VersionModel)
    requires
        a.epoch_or_zero() != b.epoch_or_zero(),
    ensures
        version_order(a, b) < 0 <==> a.epoch_or_zero() < b.epoch_or_zero(),
        version_order(a, b) != 0,
{
}

/// The order on versions is transitive.
pub proof fn lemma_version_order_trans(a: VersionModel, b: VersionModel, c: VersionModel)
    requires
        version_order(a, b) <= 0,
        version_order(b, c) <= 0,
    ensures
        version_order(a, c) <= 0,
{
    lemma_version_order_antisym(a, b);
    lemma_version_order_antisym(b, c);
    lemma_version_order_antisym(a, c);
    lemma_parts_order_antisym(a.upstream, b.upstream);
    lemma_parts_order_antisym(b.upstream, c.upstream);
    lemma_parts_order_antisym(a.upstream, c.upstream);
    if a.epoch_or_zero() == b.epoch_or_zero() && b.epoch_or_zero() == c.epoch_or_zero() {
        lemma_parts_order_trans(a.upstream, b.upstream, c.upstream);
        if parts_order(a.upstream, c.upstream) == 0 {
            if parts_order(a.upstream, b.upstream) < 0 {
                lemma_parts_order_trans(b.upstream, c.upstream, a.upstream);
            }
            if parts_order(b.upstream, c.upstream) < 0 {
                lemma_parts_order_trans(c.upstream, a.upstream, b.upstream);
            }
            if a.revision is Some && b.revision is Some && c.revision is Some {
                lemma_parts_order_trans(a.revision->0, b.revision->0, c.revision->0);
            }
        }
    }
}

/// The version with the binNMU suffix `+bN` appended to the component that
/// carries it: the revision, or the upstream version of a native version.
pub open spec fn with_binnmu(m: VersionModel, n: u32) -> VersionModel {
    let suffix = seq!['+', 'b'] + decimal(n as nat);
    match m.revision {
        Some(r) => VersionModel { epoch: m.epoch, upstream: m.upstream, revision: Some(r + suffix) },
        None => VersionModel { epoch: m.epoch, upstream: m.upstream + suffix, revision: None },
    }
}

/// A `+b` followed by digits only is the last `+b`.
proof fn lemma_marker_before_digits(s: Seq<char>, d: Seq<char>)
    requires
        all_digits(d),
    ensures
        last_binnmu_marker(s + seq!['+', 'b'] + d) == s.len(),
    decreases d.len(),
{
    let t = s + seq!['+', 'b'] + d;
    if d.len() == 0 {
        assert(t =~= s + seq!['+', 'b']);
        assert(t[t.len() - 2] == '+' && t.last() == 'b');
    } else {
        assert(all_digits(d.drop_last())) by {
            assert forall|i: int| 0 <= i < d.drop_last().len() implies is_digit(#[trigger] d.drop_last()[i]) by {
                assert(d.drop_last()[i] == d[i]);
            }
        }
        lemma_marker_before_digits(s, d.drop_last());
        assert(t.drop_last() =~= s + seq!['+', 'b'] + d.drop_last());
        assert(t.last() == d[d.len() - 1]);
        assert(is_digit(d[d.len() - 1]));
    }
}

/// Appending a binNMU suffix `+bN` to a valid version gives a valid version
/// whose binNMU number is `N`, and which without its binNMU suffix is the
/// version again.
pub proof fn lemma_binnmu_roundtrip(m: VersionModel, n: u32)
    requires
        m.valid(),
    ensures
        with_binnmu(m, n).valid(),
        binnmu_of(with_binnmu(m, n)) == Some(n),
        without_binnmu(with_binnmu(m, n)) == m,
{
    let d = decimal(n as nat);
    lemma_decimal(n as nat);
    let suffix = seq!['+', 'b'] + d;
    let w = with_binnmu(m, n);
    let base = binnmu_base(m);
    let s = base + suffix;
    assert(s =~= base + seq!['+', 'b'] + d);
    lemma_marker_before_digits(base, d);
    assert(binnmu_base(w) == s);
    assert(s.subrange(base.len() + 2int, s.len() as int) =~= d);
    assert(d[0] != '+') by {
        assert(is_digit(d[0]));
    }
    assert(parse_u32(d) == Some(n));
    assert(s.subrange(0, base.len() as int) =~= base);
    assert(cut_binnmu(s) == base);
    assert forall|i: int| 0 <= i < suffix.len() implies revision_char_ok(#[trigger] suffix[i]) by {
        if i >= 2 {
            assert(suffix[i] == d[i - 2]);
            assert(is_digit(d[i - 2]));
        }
    }
    match m.revision {
        Some(r) => {
            assert(valid_revision(r));
            assert forall|i: int| 0 <= i < s.len() implies revision_char_ok(#[trigger] s[i]) by {
                if i < r.len() {
                    assert(s[i] == r[i]);
                } else {
                    assert(s[i] == suffix[i - r.len()]);
                }
            }
            assert(valid_revision(s));
            assert(w.revision == Some(s));
        },
        None => {
            assert(valid_upstream(m.upstream, m.epoch is Some, false));
            assert forall|i: int| 0 <= i < s.len() implies upstream_char_ok(#[trigger] s[i], m.epoch is Some, false) by {
                if i < m.upstream.len() {
                    assert(s[i] == m.upstream[i]);
                } else {
                    assert(s[i] == suffix[i - m.upstream.len()]);
                }
            }
            assert(valid_upstream(s, m.epoch is Some, false));
            assert(w.upstream == s);
        },
    }
}

pub proof fn lemma_decimal(n: nat)
    ensures
        decimal(n).len() > 0,
        all_digits(decimal(n)),
        digits_value(decimal(n)) == n,
    decreases n,
{
    if n >= 10 {
        lemma_decimal(n / 10);
        let d = decimal(n / 10);
        assert(decimal(n).drop_last() =~= d);
        assert(digit_value(digit_char((n % 10) as nat)) == n % 10);
        assert(n == (n / 10) * 10 + n % 10);
        assert(decimal(n).last() == digit_char((n % 10) as nat));
        assert(digits_value(decimal(n)) == digits_value(d) * 10 + digit_value(decimal(n).last()));
        assert forall|i: int| 0 <= i < decimal(n).len() implies is_digit(#[trigger] decimal(n)[i]) by {
            if i < d.len() {
                assert(decimal(n)[i] == d[i]);
            }
        }
    } else {
        assert(decimal(n).drop_last() =~= Seq::<char>::empty());
        assert(digit_value(digit_char(n)) == n);
        assert(decimal(n).last() == digit_char(n));
        assert(digits_value(decimal(n)) == digits_value(decimal(n).drop_last()) * 10 + digit_value(decimal(n).last()));
    }
}

/// Where `a` holds no `c`, the first `c` of `a + [c] + b` is the one
/// after `a`.
pub proof fn lemma_first_index_after(a: Seq<char>, c: char, b: Seq<char>)
    requires
        forall|i: int| 0 <= i < a.len() ==> a[i] != c,
    ensures
        first_index(a + seq![c] + b, c) == a.len(),
{
    let s = a + seq![c] + b;
    assert forall|j: int| 0 <= j < a.len() implies s[j] != c by {
        assert(s[j] == a[j]);
    }
    lemma_first_index_unique(s, c, a.len() as int);
}

/// Where `b` holds no `c`, the last `c` of `a + [c] + b` is the one
/// before `b`.
pub proof fn lemma_last_index_before(a: Seq<char>, c: char, b: Seq<char>)
    requires
        forall|i: int| 0 <= i < b.len() ==> b[i] != c,
    ensures
        last_index(a + seq![c] + b, c) == a.len(),
{
    let s = a + seq![c] + b;
    assert forall|j: int| a.len() < j < s.len() implies s[j] != c by {
        assert(s[j] == b[j - a.len() - 1]);
    }
    lemma_last_index_unique(s, c, a.len() as int);
}

/// Where `s` holds no `c`, there is neither a first nor a last `c`.
pub proof fn lemma_no_index(s: Seq<char>, c: char)
    requires
        forall|i: int| 0 <= i < s.len() ==> s[i] != c,
    ensures
        first_index(s, c) == s.len(),
        last_index(s, c) == -1,
{
    lemma_first_index_unique(s, c, s.len() as int);
    lemma_last_index_unique(s, c, -1);
}

/// Parsing the text of a valid version gives the version back.
pub proof fn lemma_version_text_parse(m: VersionModel)
    requires
        m.valid(),
    ensures
        parse_version(version_text(m)) == Ok::<VersionModel, ParseError>(m),
{
    let has_e = m.epoch is Some;
    let has_r = m.revision is Some;
    let tail: Seq<char> = match m.revision {
        Some(r) => seq!['-'] + r,
        None => Seq::empty(),
    };
    let rest = m.upstream + tail;
    // no `-` after the separator of the revision, no `:` in the rest unless there is an epoch
    if has_r {
        let r = m.revision->0;
        assert forall|i: int| 0 <= i < r.len() implies r[i] != '-' by {
            assert(revision_char_ok(r[i]));
        }
        lemma_last_index_before(m.upstream, '-', r);
        assert(rest =~= m.upstream + seq!['-'] + r);
        assert(rsplit_once(rest, '-') == Some((m.upstream, r))) by {
            assert((m.upstream + seq!['-'] + r).subrange(0, m.upstream.len() as int) =~= m.upstream);
            assert((m.upstream + seq!['-'] + r).subrange(m.upstream.len() + 1int, rest.len() as int) =~= r);
        }
    } else {
        assert(rest =~= m.upstream);
        assert forall|i: int| 0 <= i < rest.len() implies rest[i] != '-' by {
            assert(upstream_char_ok(m.upstream[i], has_e, has_r));
        }
        lemma_no_index(rest, '-');
    }
    assert(parse_after_epoch(m.epoch, rest) == Ok::<VersionModel, ParseError>(m));
    match m.epoch {
        Some(e) => {
            let d = decimal(e as nat);
            lemma_decimal(e as nat);
            assert forall|i: int| 0 <= i < d.len() implies d[i] != ':' by {
                assert(is_digit(d[i]));
            }
            lemma_first_index_after(d, ':', rest);
            assert(version_text(m) =~= d + seq![':'] + rest);
            assert((d + seq![':'] + rest).subrange(0, d.len() as int) =~= d);
            assert((d + seq![':'] + rest).subrange(d.len() + 1int, version_text(m).len() as int) =~= rest);
            assert(d[0] != '+') by {
                assert(is_digit(d[0]));
            }
            assert(parse_u32(d) == Some(e));
        },
        None => {
            assert(version_text(m) =~= rest);
            assert forall|i: int| 0 <= i < rest.len() implies rest[i] != ':' by {
                if i < m.upstream.len() {
                    assert(rest[i] == m.upstream[i]);
                    assert(upstream_char_ok(m.upstream[i], has_e, has_r));
                } else if has_r {
                    let r = m.revision->0;
                    if i > m.upstream.len() {
                        assert(rest[i] == r[i - m.upstream.len() - 1]);
                        assert(revision_char_ok(r[i - m.upstream.len() - 1]));
                    }
                }
            }
            lemma_no_index(rest, ':');
        },
    }
}

// ---------------------------------------------------------------------
// Comparison with `Ordering`
// ---------------------------------------------------------------------

/// The `Ordering` of a signed comparison result.
pub open spec fn sign_ordering(i: int) -> Ordering {
    if i < 0 {
        Ordering::Less
    } else if i > 0 {
        Ordering::Greater
    } else {
        Ordering::Equal
    }
}

fn ordering_of_sign(i: i8) -> (o: Ordering)
    ensures
        i < 0 ==> o == Ordering::Less,
        i > 0 ==> o == Ordering::Greater,
        i == 0 ==> o == Ordering::Equal,
{
    if i < 0 {
        Ordering::Less
    } else if i > 0 {
        Ordering::Greater
    } else {
        Ordering::Equal
    }
}

/// Compare non-digits part of a version
///
/// Non-letters sort before letters, and ~ always sorts first.
pub fn compare_non_digits(lhs: &str, rhs: &str) -> (o: Ordering)
    ensures
        o == sign_ordering(nondigit_order(lhs@, rhs@)),
{
    ordering_of_sign(nondigit_order_str(lhs, rhs))
}

/// Compare parts of the two versions
pub fn compare_parts(lhs: &str, rhs: &str) -> (o: Ordering)
    ensures
        o == sign_ordering(parts_order(lhs@, rhs@)),
{
    ordering_of_sign(parts_order_str(lhs, rhs))
}

impl PackageVersion {
    /// Compares two versions.
    pub fn cmp(&self, other: &Self) -> (o: Ordering)
        ensures
            o == sign_ordering(version_order(self@, other@)),
    {
        ordering_of_sign(self.order(other))
    }
}

impl PartialEq for PackageVersion {
    fn eq(&self, other: &Self) -> (r: bool) {
        self.order(other) == 0
    }
}

impl Eq for PackageVersion {
}

impl vstd::std_specs::cmp::PartialEqSpecImpl for PackageVersion {
    open spec fn obeys_eq_spec() -> bool {
        true
    }

    open spec fn eq_spec(&self, other: &Self) -> bool {
        version_order(self@, other@) == 0
    }
}

impl PackageVersion {
    /// What the hash of a version is made of: the epoch (a missing one
    /// counting as 0), the upstream version and the revision.
    fn hash_key(&self) -> (r: (u32, &str, Option<&str>))
        ensures
            r.0 == self@.epoch_or_zero(),
            r.1@ == self@.upstream,
            opt_str_view(r.2) == self@.revision,
    {
        (self.epoch_or_0(), self.upstream_version(), self.debian_revision())
    }
}

/// `Hash::hash` of std on a triple, which feeds its three parts to the
/// hasher in order. Nothing is stated of it: what a hasher does with the
/// parts is the hasher's own.
#[verifier::external_body]
fn hash_triple<H: std::hash::Hasher>(key: &(u32, &str, Option<&str>), state: &mut H) {
    std::hash::Hash::hash(key, state)
}

impl std::hash::Hash for PackageVersion {
    fn hash<H: std::hash::Hasher>(&self, state: &mut H) {
        let key = self.hash_key();
        hash_triple(&key, state);
    }
}

impl PartialOrd for PackageVersion {
    fn partial_cmp(&self, other: &Self) -> (r: Option<Ordering>) {
        Some(self.cmp(other))
    }
}

impl vstd::std_specs::cmp::PartialOrdSpecImpl for PackageVersion {
    open spec fn obeys_partial_cmp_spec() -> bool {
        true
    }

    open spec fn partial_cmp_spec(&self, other: &Self) -> Option<Ordering> {
        Some(sign_ordering(version_order(self@, other@)))
    }
}

} // verus!
