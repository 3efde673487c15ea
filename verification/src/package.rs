//! Package names, versioned packages and package relationships of the
//! form `package (relation version) [architectures] <profiles>`.

use vstd::prelude::*;

use crate::architectures::{
    architecture_tuple, parse_tuple, tuple_contains, Architecture, ArchitectureTuple,
};
use crate::error::ParseError;
use crate::order::{lemma_lex_order_basics, lemma_lex_order_trans, lex_order, lex_order_of};
use crate::text::{
    chars_of, ends_with_char, find_alphanumeric, find_in, first_alphanumeric, is_digit, split_all,
    split_once, split_str, str_eq, string_of, strings_view, trim_end, trim_end_range,
};
use crate::version::{
    lemma_version_order_antisym, lemma_version_order_trans, parse_version, version_order,
    version_text, PackageVersion, VersionModel,
};

verus! {

/// Package errors
#[derive(Clone, Copy, Debug, PartialEq, Eq, Structural)]
pub enum PackageError {
    /// Package name is too short
    InvalidNameLength,
    /// Package name is invalid
    InvalidName,
}

/// Characters allowed at position `i` of a package name: lowercase ASCII
/// letters and digits, and `.`, `+`, `-` after the first position.
pub open spec fn name_char_ok(c: char, i: int) -> bool {
    ('a' <= c && c <= 'z') || is_digit(c) || (i > 0 && (c == '.' || c == '+' || c == '-'))
}

/// What the check of a package name finds: a name must be at least two
/// bytes long (so at least two characters, or one non-ASCII character
/// that then fails the character check), and all its characters must be
/// allowed.
pub open spec fn name_error(s: Seq<char>) -> Option<PackageError> {
    if s.len() == 0 || (s.len() == 1 && (s[0] as u32) < 128) {
        Some(PackageError::InvalidNameLength)
    } else if exists|i: int| 0 <= i < s.len() && !name_char_ok(#[trigger] s[i], i) {
        Some(PackageError::InvalidName)
    } else {
        None
    }
}

fn check_package_name(package: &str) -> (r: Result<(), PackageError>)
    ensures
        r == (match name_error(package@) {
            Some(e) => Err(e),
            None => Ok(()),
        }),
{
    let v = chars_of(package);
    if v.len() == 0 || (v.len() == 1 && (v[0] as u32) < 128) {
        return Err(PackageError::InvalidNameLength);
    }
    let mut i: usize = 0;
    while i < v.len()
        invariant
            v@ == package@,
            !(v@.len() == 0 || (v@.len() == 1 && (v@[0] as u32) < 128)),
            i <= v.len(),
            forall|j: int| 0 <= j < i ==> name_char_ok(#[trigger] v@[j], j),
        decreases v.len() - i,
    {
        let c = v[i];
        if !(('a' <= c && c <= 'z') || ('0' <= c && c <= '9') || (i > 0 && (c == '.' || c == '+' || c == '-'))) {
            assert(!name_char_ok(v@[i as int], i as int));
            return Err(PackageError::InvalidName);
        }
        i = i + 1;
    }
    Ok(())
}

/// Package name
#[derive(Debug, PartialOrd, Ord, Hash)]
pub struct PackageName(String);

impl View for PackageName {
    type V = Seq<char>;

    closed spec fn view(&self) -> Seq<char> {
        self.0@
    }
}

impl PackageName {
    #[verifier::type_invariant]
    closed spec fn well_formed(self) -> bool {
        name_error(self.0@) is None
    }

    /// Checks a package name.
    pub fn try_from(package: &str) -> (r: Result<Self, PackageError>)
        ensures
            match name_error(package@) {
                Some(e) => r == Err::<Self, PackageError>(e),
                None => r is Ok && r->Ok_0@ == package@,
            },
    {
        match check_package_name(package) {
            Ok(()) => Ok(PackageName(String::from_str(package))),
            Err(e) => Err(e),
        }
    }

    /// Checks a package name held in a `String`.
    pub fn try_from_string(package: String) -> (r: Result<Self, PackageError>)
        ensures
            match name_error(package@) {
                Some(e) => r == Err::<Self, PackageError>(e),
                None => r is Ok && r->Ok_0@ == package@,
            },
    {
        match check_package_name(package.as_str()) {
            Ok(()) => Ok(PackageName(package)),
            Err(e) => Err(e),
        }
    }

    /// The name as a string slice.
    pub fn as_str(&self) -> (r: &str)
        ensures
            r@ == self@,
    {
        self.0.as_str()
    }

    /// The name is a valid package name.
    pub fn valid(&self)
        ensures
            name_error(self@) is None,
    {
        proof {
            use_type_invariant(self);
        }
    }

    /// A copy of the name.
    pub fn duplicate(&self) -> (r: Self)
        ensures
            r@ == self@,
    {
        proof {
            use_type_invariant(self);
        }
        PackageName(self.0.clone())
    }

    /// The lexicographic order of two names, as a sign.
    pub fn order(&self, other: &Self) -> (r: i8)
        ensures
            r == lex_order(self@, other@),
    {
        let a = chars_of(self.0.as_str());
        let b = chars_of(other.0.as_str());
        assert(a@.subrange(0, a@.len() as int) =~= a@);
        assert(b@.subrange(0, b@.len() as int) =~= b@);
        lex_order_of(&a, 0, a.len(), &b, 0, b.len())
    }

    /// Whether the name is the given text.
    pub fn is(&self, other: &str) -> (r: bool)
        ensures
            r == (self@ == other@),
    {
        str_eq(self.0.as_str(), other)
    }

    /// The name as text.
    pub fn to_string(&self) -> (r: String)
        ensures
            r@ == self@,
    {
        self.0.clone()
    }
}

impl Clone for PackageName {
    fn clone(&self) -> (r: Self)
        ensures
            r@ == self@,
    {
        self.duplicate()
    }
}

impl PartialEq for PackageName {
    fn eq(&self, other: &Self) -> (r: bool) {
        self.0 == other.0
    }
}

impl Eq for PackageName {
}

impl vstd::std_specs::cmp::PartialEqSpecImpl for PackageName {
    open spec fn obeys_eq_spec() -> bool {
        true
    }

    open spec fn eq_spec(&self, other: &Self) -> bool {
        self@ == other@
    }
}

/// A package together with its version
#[derive(Debug)]
pub struct VersionedPackage {
    /// The package name
    pub package: PackageName,
    /// The package version
    pub version: PackageVersion,
}

/// Order of versioned packages: by name, then by version.
pub open spec fn versioned_order(a: (Seq<char>, VersionModel), b: (Seq<char>, VersionModel)) -> int {
    if lex_order(a.0, b.0) != 0 {
        lex_order(a.0, b.0)
    } else {
        version_order(a.1, b.1)
    }
}

impl View for VersionedPackage {
    type V = (Seq<char>, VersionModel);

    open spec fn view(&self) -> (Seq<char>, VersionModel) {
        (self.package@, self.version@)
    }
}

impl VersionedPackage {
    /// A copy of the versioned package.
    pub fn duplicate(&self) -> (r: Self)
        ensures
            r@ == self@,
    {
        VersionedPackage { package: self.package.duplicate(), version: self.version.duplicate() }
    }

    /// The order of two versioned packages, as a sign.
    pub fn order(&self, other: &Self) -> (r: i8)
        ensures
            r == versioned_order(self@, other@),
    {
        let c = self.package.order(&other.package);
        if c != 0 {
            c
        } else {
            self.version.order(&other.version)
        }
    }
}

impl PartialEq for VersionedPackage {
    fn eq(&self, other: &Self) -> (r: bool) {
        self.order(other) == 0
    }
}

impl Eq for VersionedPackage {
}

impl vstd::std_specs::cmp::PartialEqSpecImpl for VersionedPackage {
    open spec fn obeys_eq_spec() -> bool {
        true
    }

    open spec fn eq_spec(&self, other: &Self) -> bool {
        versioned_order(self@, other@) == 0
    }
}

/// The order on versioned packages is antisymmetric.
pub proof fn lemma_versioned_order_antisym(a: (Seq<char>, VersionModel), b: (Seq<char>, VersionModel))
    ensures
        versioned_order(a, b) == -versioned_order(b, a),
{
    lemma_lex_order_basics(a.0, b.0);
    lemma_version_order_antisym(a.1, b.1);
}

/// The order on versioned packages is transitive.
pub proof fn lemma_versioned_order_trans(
    a: (Seq<char>, VersionModel),
    b: (Seq<char>, VersionModel),
    c: (Seq<char>, VersionModel),
)
    requires
        versioned_order(a, b) <= 0,
        versioned_order(b, c) <= 0,
    ensures
        versioned_order(a, c) <= 0,
{
    lemma_lex_order_basics(a.0, b.0);
    lemma_lex_order_basics(b.0, c.0);
    lemma_lex_order_basics(a.0, c.0);
    lemma_lex_order_trans(a.0, b.0, c.0);
    if lex_order(a.0, c.0) == 0 {
        if lex_order(a.0, b.0) < 0 {
            lemma_lex_order_trans(b.0, c.0, a.0);
        }
        lemma_version_order_trans(a.1, b.1, c.1);
    }
}

/// Represents the comparison operation for a version relationship
#[derive(Clone, Copy, Debug, PartialEq, Eq, Hash, Structural)]
pub enum Relationship {
    /// Less than
    Less,
    /// Less or equal
    LessEqual,
    /// Equal
    Equal,
    /// Greater than
    Greater,
    /// Greater or equal
    GreaterEqual,
}

/// The text of each value.
pub open spec fn relationship_name(x: Relationship) -> Seq<char> {
    match x {
        Relationship::Less => "<<"@,
        Relationship::LessEqual => "<="@,
        Relationship::Equal => "="@,
        Relationship::Greater => ">>"@,
        Relationship::GreaterEqual => ">="@,
    }
}

/// The value that a text names, if any.
pub open spec fn parse_relationship(s: Seq<char>) -> Option<Relationship> {
    if s == "<<"@ {
        Some(Relationship::Less)
    } else if s == "<="@ {
        Some(Relationship::LessEqual)
    } else if s == "="@ {
        Some(Relationship::Equal)
    } else if s == ">>"@ {
        Some(Relationship::Greater)
    } else if s == ">="@ {
        Some(Relationship::GreaterEqual)
    } else {
        None
    }
}

impl Relationship {
    /// The text of the value.
    pub fn as_str(&self) -> (r: &'static str)
        ensures
            r@ == relationship_name(*self),
    {
        match self {
            Relationship::Less => "<<",
            Relationship::LessEqual => "<=",
            Relationship::Equal => "=",
            Relationship::Greater => ">>",
            Relationship::GreaterEqual => ">=",
        }
    }

    /// Parses the text of a value.
    pub fn try_from(value: &str) -> (r: Result<Self, ParseError>)
        ensures
            r == (match parse_relationship(value@) {
                Some(x) => Ok(x),
                None => Err(ParseError::InvalidRelationship),
            }),
    {
        if str_eq(value, "<<") {
            Ok(Relationship::Less)
        } else if str_eq(value, "<=") {
            Ok(Relationship::LessEqual)
        } else if str_eq(value, "=") {
            Ok(Relationship::Equal)
        } else if str_eq(value, ">>") {
            Ok(Relationship::Greater)
        } else if str_eq(value, ">=") {
            Ok(Relationship::GreaterEqual)
        } else {
            Err(ParseError::InvalidRelationship)
        }
    }
}

impl std::str::FromStr for Relationship {
    type Err = ParseError;

    fn from_str(s: &str) -> (r: Result<Self, Self::Err>)
        ensures
            r == (match parse_relationship(s@) {
                Some(x) => Ok(x),
                None => Err(ParseError::InvalidRelationship),
            }),
    {
        Self::try_from(s)
    }
}

/// Each version relation is read from exactly its Debian operator: `<<`
/// strictly less, `<=` less or equal, `=` equal, `>>` strictly greater and
/// `>=` greater or equal; and it is written as the operator that reads
/// back as it.
pub proof fn lemma_relationship_operators(s: Seq<char>, x: Relationship)
    ensures
        parse_relationship(s) == Some(Relationship::Less) <==> s == seq!['<', '<'],
        parse_relationship(s) == Some(Relationship::LessEqual) <==> s == seq!['<', '='],
        parse_relationship(s) == Some(Relationship::Equal) <==> s == seq!['='],
        parse_relationship(s) == Some(Relationship::Greater) <==> s == seq!['>', '>'],
        parse_relationship(s) == Some(Relationship::GreaterEqual) <==> s == seq!['>', '='],
        relationship_name(x) == s <==> parse_relationship(s) == Some(x),
{
    reveal_strlit("<<");
    reveal_strlit("<=");
    reveal_strlit("=");
    reveal_strlit(">>");
    reveal_strlit(">=");
    assert("<<"@ =~= seq!['<', '<']);
    assert("<="@ =~= seq!['<', '=']);
    assert("="@ =~= seq!['=']);
    assert(">>"@ =~= seq!['>', '>']);
    assert(">="@ =~= seq!['>', '=']);
    lemma_relationship_text_parse(x);
    if parse_relationship(s) == Some(x) {
        assert(s == relationship_name(x));
    }
}

/// Parsing the text of a value gives the value back.
pub proof fn lemma_relationship_text_parse(x: Relationship)
    ensures
        parse_relationship(relationship_name(x)) == Some(x),
{
    reveal_strlit("<<");
    reveal_strlit("<=");
    reveal_strlit("=");
    reveal_strlit(">>");
    reveal_strlit(">=");
    match x {
        Relationship::Less => {
        },
        Relationship::LessEqual => {
            assert("<="@[1] != "<<"@[1]);
        },
        Relationship::Equal => {
            assert("="@.len() != "<<"@.len());
            assert("="@.len() != "<="@.len());
        },
        Relationship::Greater => {
            assert(">>"@[0] != "<<"@[0]);
            assert(">>"@[0] != "<="@[0]);
            assert(">>"@.len() != "="@.len());
        },
        Relationship::GreaterEqual => {
            assert(">="@[0] != "<<"@[0]);
            assert(">="@[0] != "<="@[0]);
            assert(">="@.len() != "="@.len());
            assert(">="@[1] != ">>"@[1]);
        },
    }
}

/// Represents a version relationship, i.e., it consists of a comparison operator and a version
#[derive(Debug)]
pub struct VersionRelationship {
    /// The version
    pub version: PackageVersion,
    /// Comparison operator
    pub relation: Relationship,
}

/// Parsing of `relation version`: the version starts at the first
/// alphanumeric character, and the relation before it may be followed by
/// whitespace.
pub open spec fn parse_version_relationship(s: Seq<char>) -> Result<(VersionModel, Relationship), ParseError> {
    let pos = first_alphanumeric(s);
    if pos < s.len() {
        match parse_relationship(trim_end(s.subrange(0, pos))) {
            None => Err(ParseError::InvalidRelationship),
            Some(rel) => match parse_version(s.subrange(pos, s.len() as int)) {
                Ok(v) => Ok((v, rel)),
                Err(e) => Err(e),
            },
        }
    } else {
        Err(ParseError::InvalidRelationship)
    }
}

/// The text of a version relationship, `relation version`.
pub open spec fn version_relationship_text(v: VersionModel, rel: Relationship) -> Seq<char> {
    relationship_name(rel) + " "@ + version_text(v)
}

impl View for VersionRelationship {
    type V = (VersionModel, Relationship);

    open spec fn view(&self) -> (VersionModel, Relationship) {
        (self.version@, self.relation)
    }
}

impl VersionRelationship {
    /// Parses `relation version`, such as `>= 1.0-1`.
    pub fn try_from(value: &str) -> (r: Result<Self, ParseError>)
        ensures
            match r {
                Ok(x) => parse_version_relationship(value@) == Ok::<_, ParseError>(x@),
                Err(e) => parse_version_relationship(value@) == Err::<(VersionModel, Relationship), _>(e),
            },
    {
        let v = chars_of(value);
        let pos = find_alphanumeric(&v);
        if pos == v.len() {
            return Err(ParseError::InvalidRelationship);
        }
        let rel_end = trim_end_range(&v, 0, pos);
        let rel_text = string_of(&v, 0, rel_end);
        let ver_text = string_of(&v, pos, v.len());
        let relation = match Relationship::try_from(rel_text.as_str()) {
            Ok(r) => r,
            Err(e) => return Err(e),
        };
        match PackageVersion::try_from(ver_text.as_str()) {
            Ok(version) => Ok(VersionRelationship { version, relation }),
            Err(e) => Err(e),
        }
    }

    /// The text of the relationship, `relation version`.
    pub fn to_string(&self) -> (r: String)
        ensures
            r@ == version_relationship_text(self.version@, self.relation),
    {
        let mut s = String::from_str(self.relation.as_str());
        s.append(" ");
        let v = self.version.to_string();
        s.append(v.as_str());
        s
    }

    /// A copy of the relationship.
    pub fn duplicate(&self) -> (r: Self)
        ensures
            r@ == self@,
    {
        VersionRelationship { version: self.version.duplicate(), relation: self.relation }
    }
}

impl PartialEq for VersionRelationship {
    fn eq(&self, other: &Self) -> (r: bool) {
        self.version.order(&other.version) == 0 && self.relation == other.relation
    }
}

impl Eq for VersionRelationship {
}

impl vstd::std_specs::cmp::PartialEqSpecImpl for VersionRelationship {
    open spec fn obeys_eq_spec() -> bool {
        true
    }

    open spec fn eq_spec(&self, other: &Self) -> bool {
        version_order(self.version@, other.version@) == 0 && self.relation == other.relation
    }
}

/// List of architecture restrictions
#[derive(Debug)]
pub struct ArchitectureRestriction {
    positive_list: Vec<ArchitectureTuple>,
    negative_list: Vec<ArchitectureTuple>,
}

/// The sets of wildcards of a restriction: those that an architecture
/// must match one of (where there are any), and those it must match none of.
pub struct RestrictionModel {
    pub positive: Set<ArchitectureTuple>,
    pub negative: Set<ArchitectureTuple>,
}

impl View for ArchitectureRestriction {
    type V = RestrictionModel;

    closed spec fn view(&self) -> RestrictionModel {
        RestrictionModel {
            positive: self.positive_list@.to_set(),
            negative: self.negative_list@.to_set(),
        }
    }
}

/// An architecture satisfies a restriction where it matches a positive
/// wildcard (or there is none) and no negative one.
pub open spec fn restriction_satisfied(m: RestrictionModel, a: Architecture) -> bool {
    (m.positive.is_empty() || exists|t: ArchitectureTuple| m.positive.contains(t) && tuple_contains(t, architecture_tuple(a)))
        && !(exists|t: ArchitectureTuple| m.negative.contains(t) && tuple_contains(t, architecture_tuple(a)))
}

/// One item of a restriction list: a wildcard, negated by a leading `!`.
pub open spec fn restriction_item(p: Seq<char>) -> Result<(bool, ArchitectureTuple), ParseError> {
    let negated = p.len() > 0 && p[0] == '!';
    let body = if negated {
        p.drop_first()
    } else {
        p
    };
    match parse_tuple(body) {
        Ok(t) => Ok((negated, t)),
        Err(_) => Err(ParseError::InvalidRelationship),
    }
}

/// Parsing of a restriction list: items separated by single spaces, each a
/// wildcard or a `!` and a wildcard; any other item makes the list invalid.
pub open spec fn parse_restriction(s: Seq<char>) -> Result<RestrictionModel, ParseError> {
    let items = split_all(s, ' ');
    if forall|i: int| 0 <= i < items.len() ==> restriction_item(#[trigger] items[i]) is Ok {
        Ok(RestrictionModel {
            positive: Set::new(|t: ArchitectureTuple| exists|i: int| 0 <= i < items.len() && restriction_item(#[trigger] items[i]) == Ok::<_, ParseError>((false, t))),
            negative: Set::new(|t: ArchitectureTuple| exists|i: int| 0 <= i < items.len() && restriction_item(#[trigger] items[i]) == Ok::<_, ParseError>((true, t))),
        })
    } else {
        Err(ParseError::InvalidRelationship)
    }
}

proof fn lemma_push_contains<T>(s: Seq<T>, t: T)
    ensures
        forall|u: T| #[trigger] s.push(t).contains(u) <==> (s.contains(u) || u == t),
{
    assert forall|u: T| #[trigger] s.push(t).contains(u) <==> (s.contains(u) || u == t) by {
        if s.push(t).contains(u) {
            let k = choose|k: int| 0 <= k < s.push(t).len() && s.push(t)[k] == u;
            if k < s.len() {
                assert(s[k] == u);
            }
        }
        if s.contains(u) {
            let k = choose|k: int| 0 <= k < s.len() && s[k] == u;
            assert(s.push(t)[k] == u);
        }
        if u == t {
            assert(s.push(t)[s.len() as int] == u);
        }
    }
}

/// Parses one item of a restriction list.
fn parse_restriction_item(p: &str) -> (r: Result<(bool, ArchitectureTuple), ParseError>)
    ensures
        r == restriction_item(p@),
{
    let v = chars_of(p);
    let negated = v.len() > 0 && v[0] == '!';
    let body = if negated {
        string_of(&v, 1, v.len())
    } else {
        string_of(&v, 0, v.len())
    };
    proof {
        if negated {
            assert(body@ =~= p@.drop_first());
        } else {
            assert(body@ =~= p@);
        }
    }
    match ArchitectureTuple::try_from(body.as_str()) {
        Ok(t) => Ok((negated, t)),
        Err(_) => Err(ParseError::InvalidRelationship),
    }
}

impl ArchitectureRestriction {
    /// Check whether a given architectures satisfies the architecture restrictions.
    pub fn satisfied_by(&self, architecture: Architecture) -> (r: bool)
        ensures
            r == restriction_satisfied(self@, architecture),
    {
        let at = ArchitectureTuple::from(architecture);
        let mut positive = self.positive_list.len() == 0;
        let mut i: usize = 0;
        while i < self.positive_list.len()
            invariant
                i <= self.positive_list.len(),
                at == architecture_tuple(architecture),
                positive == (self.positive_list@.len() == 0 || exists|j: int| 0 <= j < i && tuple_contains(#[trigger] self.positive_list@[j], at)),
            decreases self.positive_list.len() - i,
        {
            if self.positive_list[i].contains(at) {
                positive = true;
            }
            i = i + 1;
        }
        let mut negative = false;
        let mut k: usize = 0;
        while k < self.negative_list.len()
            invariant
                k <= self.negative_list.len(),
                at == architecture_tuple(architecture),
                negative == (exists|j: int| 0 <= j < k && tuple_contains(#[trigger] self.negative_list@[j], at)),
            decreases self.negative_list.len() - k,
        {
            if self.negative_list[k].contains(at) {
                negative = true;
            }
            k = k + 1;
        }
        proof {
            let m = self@;
            assert(m.positive.is_empty() <==> self.positive_list@.len() == 0) by {
                if self.positive_list@.len() > 0 {
                    assert(m.positive.contains(self.positive_list@[0]));
                } else {
                    assert(m.positive =~= Set::empty());
                }
            }
            if positive && self.positive_list@.len() > 0 {
                let j = choose|j: int| 0 <= j < self.positive_list@.len() && tuple_contains(#[trigger] self.positive_list@[j], at);
                assert(m.positive.contains(self.positive_list@[j]));
            }
            if exists|t: ArchitectureTuple| m.positive.contains(t) && tuple_contains(t, at) {
                let t = choose|t: ArchitectureTuple| m.positive.contains(t) && tuple_contains(t, at);
                let j = choose|j: int| 0 <= j < self.positive_list@.len() && self.positive_list@[j] == t;
                assert(tuple_contains(self.positive_list@[j], at));
            }
            if negative {
                let j = choose|j: int| 0 <= j < self.negative_list@.len() && tuple_contains(#[trigger] self.negative_list@[j], at);
                assert(m.negative.contains(self.negative_list@[j]));
            }
            if exists|t: ArchitectureTuple| m.negative.contains(t) && tuple_contains(t, at) {
                let t = choose|t: ArchitectureTuple| m.negative.contains(t) && tuple_contains(t, at);
                let j = choose|j: int| 0 <= j < self.negative_list@.len() && self.negative_list@[j] == t;
                assert(tuple_contains(self.negative_list@[j], at));
            }
        }
        positive && !negative
    }

    /// Parses a restriction list such as `any-amd64 !x32`.
    pub fn try_from(value: &str) -> (r: Result<Self, ParseError>)
        ensures
            match r {
                Ok(x) => parse_restriction(value@) == Ok::<_, ParseError>(x@),
                Err(e) => parse_restriction(value@) == Err::<RestrictionModel, _>(e),
            },
    {
        let items = split_str(value, ' ');
        let ghost iv = strings_view(items@);
        let mut positive_list: Vec<ArchitectureTuple> = Vec::new();
        let mut negative_list: Vec<ArchitectureTuple> = Vec::new();
        let mut i: usize = 0;
        while i < items.len()
            invariant
                i <= items.len(),
                iv == strings_view(items@),
                iv == split_all(value@, ' '),
                forall|j: int| 0 <= j < i ==> restriction_item(#[trigger] iv[j]) is Ok,
                forall|t: ArchitectureTuple| positive_list@.contains(t) <==> exists|j: int| 0 <= j < i && restriction_item(#[trigger] iv[j]) == Ok::<_, ParseError>((false, t)),
                forall|t: ArchitectureTuple| negative_list@.contains(t) <==> exists|j: int| 0 <= j < i && restriction_item(#[trigger] iv[j]) == Ok::<_, ParseError>((true, t)),
            decreases items.len() - i,
        {
            assert(iv[i as int] == items@[i as int]@);
            match parse_restriction_item(items[i].as_str()) {
                Ok((negated, t)) => {
                    let ghost old_pos = positive_list@;
                    let ghost old_neg = negative_list@;
                    if negated {
                        negative_list.push(t);
                    } else {
                        positive_list.push(t);
                    }
                    proof {
                        lemma_push_contains(old_pos, t);
                        lemma_push_contains(old_neg, t);
                        assert forall|u: ArchitectureTuple| positive_list@.contains(u) <==> exists|j: int| 0 <= j < i + 1 && restriction_item(#[trigger] iv[j]) == Ok::<_, ParseError>((false, u)) by {
                            if exists|j: int| 0 <= j < i + 1 && restriction_item(#[trigger] iv[j]) == Ok::<_, ParseError>((false, u)) {
                                let j = choose|j: int| 0 <= j < i + 1 && restriction_item(#[trigger] iv[j]) == Ok::<_, ParseError>((false, u));
                                if j < i {
                                    assert(old_pos.contains(u));
                                }
                            }
                            if old_pos.contains(u) {
                                let j = choose|j: int| 0 <= j < i && restriction_item(#[trigger] iv[j]) == Ok::<_, ParseError>((false, u));
                                assert(0 <= j < i + 1);
                            }
                            if !negated && u == t {
                                assert(restriction_item(iv[i as int]) == Ok::<_, ParseError>((false, u)));
                            }
                        }
                        assert forall|u: ArchitectureTuple| negative_list@.contains(u) <==> exists|j: int| 0 <= j < i + 1 && restriction_item(#[trigger] iv[j]) == Ok::<_, ParseError>((true, u)) by {
                            if exists|j: int| 0 <= j < i + 1 && restriction_item(#[trigger] iv[j]) == Ok::<_, ParseError>((true, u)) {
                                let j = choose|j: int| 0 <= j < i + 1 && restriction_item(#[trigger] iv[j]) == Ok::<_, ParseError>((true, u));
                                if j < i {
                                    assert(old_neg.contains(u));
                                }
                            }
                            if old_neg.contains(u) {
                                let j = choose|j: int| 0 <= j < i && restriction_item(#[trigger] iv[j]) == Ok::<_, ParseError>((true, u));
                                assert(0 <= j < i + 1);
                            }
                            if negated && u == t {
                                assert(restriction_item(iv[i as int]) == Ok::<_, ParseError>((true, u)));
                            }
                        }
                    }
                },
                Err(e) => {
                    return Err(e);
                },
            }
            i = i + 1;
        }
        let r = ArchitectureRestriction { positive_list, negative_list };
        assert(r@.positive =~= parse_restriction(value@)->Ok_0.positive);
        assert(r@.negative =~= parse_restriction(value@)->Ok_0.negative);
        Ok(r)
    }
}

/// Relationship (Depends, Recommends, Suggests, etc) on some package of the
/// form `package (version) [arch] <profile>` whereas everything except the
/// package is optional.
#[derive(Debug)]
pub struct PackageRelationship {
    /// Package part
    pub package: PackageName,
    /// Version relationship
    pub version_relation: Option<VersionRelationship>,
    /// Architecture restrictions
    pub architecture_restrictions: Option<ArchitectureRestriction>,
    /// Build profiles
    pub build_profiles: Option<String>,
}

/// The view of a package relationship.
pub struct RelationshipModel {
    pub package: Seq<char>,
    pub version_relation: Option<(VersionModel, Relationship)>,
    pub architecture_restrictions: Option<RestrictionModel>,
    pub build_profiles: Option<Seq<char>>,
}

impl View for PackageRelationship {
    type V = RelationshipModel;

    open spec fn view(&self) -> RelationshipModel {
        RelationshipModel {
            package: self.package@,
            version_relation: match self.version_relation {
                Some(v) => Some(v@),
                None => None,
            },
            architecture_restrictions: match self.architecture_restrictions {
                Some(a) => Some(a@),
                None => None,
            },
            build_profiles: match self.build_profiles {
                Some(p) => Some(p@),
                None => None,
            },
        }
    }
}

/// The part before the first `open` and the part between it and a closing
/// `close` that ends the text; `Err` where the text does not end with `close`.
pub open spec fn bracketed(s: Seq<char>, open: char, close: char) -> Option<Result<(Seq<char>, Seq<char>), ParseError>> {
    match split_once(s, open) {
        None => None,
        Some(p) => if ends_with_char(p.1, close) {
            Some(Ok((trim_end(p.0), p.1.drop_last())))
        } else {
            Some(Err(ParseError::InvalidRelationship))
        },
    }
}

/// Parsing of `package (relation version) [restrictions] <profiles>`:
/// the profiles start at the first `<`, the restrictions at the first `[`
/// before that, the version relationship at the first `(` before that.
/// The package name must be valid; its errors are reported as an invalid
/// relationship.
pub open spec fn parse_package_relationship(s: Seq<char>) -> Result<RelationshipModel, ParseError> {
    match bracketed(s, '<', '>') {
        Some(Err(e)) => Err(e),
        _ => {
            let (s1, profiles) = match bracketed(s, '<', '>') {
                Some(Ok(p)) => (p.0, Some(p.1)),
                _ => (s, None),
            };
            match bracketed(s1, '[', ']') {
                Some(Err(e)) => Err(e),
                Some(Ok(p)) if parse_restriction(p.1) is Err => Err(parse_restriction(p.1)->Err_0),
                _ => {
                    let (s2, restrictions) = match bracketed(s1, '[', ']') {
                        Some(Ok(p)) => (p.0, Some(parse_restriction(p.1)->Ok_0)),
                        _ => (s1, None),
                    };
                    match bracketed(s2, '(', ')') {
                        Some(Err(e)) => Err(e),
                        Some(Ok(p)) => if name_error(p.0) is Some {
                            Err(ParseError::InvalidRelationship)
                        } else {
                            match parse_version_relationship(p.1) {
                                Err(e) => Err(e),
                                Ok(vr) => Ok(RelationshipModel {
                                    package: p.0,
                                    version_relation: Some(vr),
                                    architecture_restrictions: restrictions,
                                    build_profiles: profiles,
                                }),
                            }
                        },
                        None => if name_error(s2) is Some {
                            Err(ParseError::InvalidRelationship)
                        } else {
                            Ok(RelationshipModel {
                                package: s2,
                                version_relation: None,
                                architecture_restrictions: restrictions,
                                build_profiles: profiles,
                            })
                        },
                    }
                },
            }
        },
    }
}

/// The text of a package relationship as it is displayed: the package and
/// the version relationship in parentheses, if there is one.
pub open spec fn package_relationship_text(m: RelationshipModel) -> Seq<char> {
    match m.version_relation {
        Some(vr) => m.package + " ("@ + version_relationship_text(vr.0, vr.1) + ")"@,
        None => m.package,
    }
}

/// Splits `v[0..to]` at its first `open` and checks that the rest ends
/// with `close`; gives the trimmed part before and the part in between.
fn split_bracketed(v: &Vec<char>, to: usize, open: char, close: char) -> (r: Option<Result<(usize, usize), ParseError>>)
    requires
        to <= v.len(),
    ensures
        match bracketed(v@.subrange(0, to as int), open, close) {
            None => r is None,
            Some(Err(e)) => r == Some(Err::<(usize, usize), ParseError>(e)),
            Some(Ok(p)) => r matches Some(Ok(q)) && q.0 <= q.1 && q.1 + 2 <= to
                && v@.subrange(0, q.0 as int) == p.0 && v@.subrange(q.1 + 1, to - 1) == p.1,
        },
{
    let ghost s = v@.subrange(0, to as int);
    let i = find_in(v, 0, to, open);
    if i == to {
        return None;
    }
    assert(s.subrange(i + 1, s.len() as int) =~= v@.subrange(i + 1, to as int));
    if !(i + 1 < to && v[to - 1] == close) {
        return Some(Err(ParseError::InvalidRelationship));
    }
    let end = trim_end_range(v, 0, i);
    assert(s.subrange(0, i as int) =~= v@.subrange(0, i as int));
    assert(v@.subrange(i + 1, to as int).drop_last() =~= v@.subrange(i + 1, to - 1));
    Some(Ok((end, i)))
}

impl PackageRelationship {
    /// Parses `package (relation version) [restrictions] <profiles>`.
    pub fn try_from(value: &str) -> (r: Result<Self, ParseError>)
        ensures
            match r {
                Ok(x) => parse_package_relationship(value@) == Ok::<_, ParseError>(x@),
                Err(e) => parse_package_relationship(value@) == Err::<RelationshipModel, _>(e),
            },
    {
        let v = chars_of(value);
        assert(v@.subrange(0, v@.len() as int) =~= v@);
        // build profiles
        let (end1, profiles) = match split_bracketed(&v, v.len(), '<', '>') {
            None => (v.len(), None),
            Some(Err(e)) => return Err(e),
            Some(Ok((end, open))) => (end, Some(string_of(&v, open + 1, v.len() - 1))),
        };
        // architecture restrictions
        let (end2, restrictions) = match split_bracketed(&v, end1, '[', ']') {
            None => (end1, None),
            Some(Err(e)) => return Err(e),
            Some(Ok((end, open))) => {
                let text = string_of(&v, open + 1, end1 - 1);
                match ArchitectureRestriction::try_from(text.as_str()) {
                    Ok(ar) => (end, Some(ar)),
                    Err(e) => return Err(e),
                }
            },
        };
        // version relationship
        match split_bracketed(&v, end2, '(', ')') {
            None => {
                let name = string_of(&v, 0, end2);
                match PackageName::try_from_string(name) {
                    Ok(package) => Ok(PackageRelationship {
                        package,
                        version_relation: None,
                        architecture_restrictions: restrictions,
                        build_profiles: profiles,
                    }),
                    Err(_) => Err(ParseError::InvalidRelationship),
                }
            },
            Some(Err(e)) => Err(e),
            Some(Ok((end, open))) => {
                let name = string_of(&v, 0, end);
                let package = match PackageName::try_from_string(name) {
                    Ok(p) => p,
                    Err(_) => return Err(ParseError::InvalidRelationship),
                };
                let text = string_of(&v, open + 1, end2 - 1);
                match VersionRelationship::try_from(text.as_str()) {
                    Ok(vr) => Ok(PackageRelationship {
                        package,
                        version_relation: Some(vr),
                        architecture_restrictions: restrictions,
                        build_profiles: profiles,
                    }),
                    Err(e) => Err(e),
                }
            },
        }
    }

    /// The text of the relationship: the package and the version
    /// relationship in parentheses, if there is one.
    pub fn to_string(&self) -> (r: String)
        ensures
            r@ == package_relationship_text(self@),
    {
        let mut s = self.package.to_string();
        if let Some(vr) = &self.version_relation {
            s.append(" (");
            let t = vr.to_string();
            s.append(t.as_str());
            s.append(")");
        }
        s
    }
}

impl std::str::FromStr for PackageRelationship {
    type Err = ParseError;

    fn from_str(s: &str) -> (r: Result<Self, Self::Err>)
        ensures
            match r {
                Ok(x) => parse_package_relationship(s@) == Ok::<_, ParseError>(x@),
                Err(e) => parse_package_relationship(s@) == Err::<RelationshipModel, _>(e),
            },
    {
        Self::try_from(s)
    }
}

} // verus!
