//! Suites, codenames, extensions, multi-arch values and components of
//! the Debian archive.

use vstd::prelude::*;

use crate::error::ParseError;
use crate::text::{chars_of, find_char, split_once, str_eq, string_of};
use crate::version::lemma_first_index_after;

verus! {

/// "Extensions" to a codename or a suite
///
/// This enum covers the archives for backports, security updates, (old)stable
/// updates and (old)stable proposed-updates.
#[derive(Clone, Copy, Debug, PartialEq, Eq, Hash, Structural)]
pub enum Extension {
    /// The backports extension
    Backports,
    /// The security extension
    Security,
    /// The updates extension
    Updates,
    /// The proposed-upates extension
    ProposedUpdates,
}

/// The text of each value.
pub open spec fn extension_name(x: Extension) -> Seq<char> {
    match x {
        Extension::Backports => "backports"@,
        Extension::Security => "security"@,
        Extension::Updates => "updates"@,
        Extension::ProposedUpdates => "proposed-updates"@,
    }
}

/// The value that a text names, if any.
pub open spec fn parse_extension(s: Seq<char>) -> Option<Extension> {
    if s == "backports"@ {
        Some(Extension::Backports)
    } else if s == "security"@ {
        Some(Extension::Security)
    } else if s == "updates"@ {
        Some(Extension::Updates)
    } else if s == "proposed-updates"@ {
        Some(Extension::ProposedUpdates)
    } else {
        None
    }
}

impl Extension {
    /// The text of the value.
    pub fn as_str(&self) -> (r: &'static str)
        ensures
            r@ == extension_name(*self),
    {
        match self {
            Extension::Backports => "backports",
            Extension::Security => "security",
            Extension::Updates => "updates",
            Extension::ProposedUpdates => "proposed-updates",
        }
    }

    /// Parses the text of a value.
    pub fn try_from(value: &str) -> (r: Result<Self, ParseError>)
        ensures
            r == (match parse_extension(value@) {
                Some(x) => Ok(x),
                None => Err(ParseError::InvalidExtension),
            }),
    {
        if str_eq(value, "backports") {
            Ok(Extension::Backports)
        } else if str_eq(value, "security") {
            Ok(Extension::Security)
        } else if str_eq(value, "updates") {
            Ok(Extension::Updates)
        } else if str_eq(value, "proposed-updates") {
            Ok(Extension::ProposedUpdates)
        } else {
            Err(ParseError::InvalidExtension)
        }
    }
}

impl std::str::FromStr for Extension {
    type Err = ParseError;

    fn from_str(s: &str) -> (r: Result<Self, Self::Err>)
        ensures
            r == (match parse_extension(s@) {
                Some(x) => Ok(x),
                None => Err(ParseError::InvalidExtension),
            }),
    {
        Self::try_from(s)
    }
}

/// Each archive extension is read from exactly its Debian name: `backports`,
/// `security`, `updates` and `proposed-updates`; and it is written as the
/// text that reads back as it.
pub proof fn lemma_extension_names(s: Seq<char>, x: Extension)
    ensures
        parse_extension(s) == Some(Extension::Backports) <==> s == seq!['b', 'a', 'c', 'k', 'p', 'o', 'r', 't', 's'],
        parse_extension(s) == Some(Extension::Security) <==> s == seq!['s', 'e', 'c', 'u', 'r', 'i', 't', 'y'],
        parse_extension(s) == Some(Extension::Updates) <==> s == seq!['u', 'p', 'd', 'a', 't', 'e', 's'],
        parse_extension(s) == Some(Extension::ProposedUpdates) <==> s == seq!['p', 'r', 'o', 'p', 'o', 's', 'e', 'd', '-', 'u', 'p', 'd', 'a', 't', 'e', 's'],
        extension_name(x) == s <==> parse_extension(s) == Some(x),
{
    reveal_strlit("backports");
    reveal_strlit("security");
    reveal_strlit("updates");
    reveal_strlit("proposed-updates");
    assert("backports"@ =~= seq!['b', 'a', 'c', 'k', 'p', 'o', 'r', 't', 's']);
    assert("security"@ =~= seq!['s', 'e', 'c', 'u', 'r', 'i', 't', 'y']);
    assert("updates"@ =~= seq!['u', 'p', 'd', 'a', 't', 'e', 's']);
    assert("proposed-updates"@ =~= seq!['p', 'r', 'o', 'p', 'o', 's', 'e', 'd', '-', 'u', 'p', 'd', 'a', 't', 'e', 's']);
    lemma_extension_text_parse(x);
    if parse_extension(s) == Some(x) {
        assert(s == extension_name(x));
    }
}

/// Parsing the text of a value gives the value back.
pub proof fn lemma_extension_text_parse(x: Extension)
    ensures
        parse_extension(extension_name(x)) == Some(x),
{
    reveal_strlit("backports");
    reveal_strlit("security");
    reveal_strlit("updates");
    reveal_strlit("proposed-updates");
    match x {
        Extension::Backports => {
        },
        Extension::Security => {
            assert("security"@.len() != "backports"@.len());
        },
        Extension::Updates => {
            assert("updates"@.len() != "backports"@.len());
            assert("updates"@.len() != "security"@.len());
        },
        Extension::ProposedUpdates => {
            assert("proposed-updates"@.len() != "backports"@.len());
            assert("proposed-updates"@.len() != "security"@.len());
            assert("proposed-updates"@.len() != "updates"@.len());
        },
    }
}

/// Debian archive suites
///
/// This enum describes the suite names found in the Debian archive.
#[derive(Clone, Copy, Debug, PartialEq, Eq, Hash, Structural)]
pub enum Suite {
    /// The unstable suite
    Unstable,
    /// The testing suite
    Testing(Option<Extension>),
    /// The stable suite
    Stable(Option<Extension>),
    /// The oldstable suite
    OldStable(Option<Extension>),
    /// The experimental suite
    Experimental,
}

/// Debian archive codenames
///
/// This enum describes the codenames names found in the Debian archive.
#[derive(Clone, Copy, Debug, PartialEq, Eq, Hash, Structural)]
pub enum Codename {
    /// The unstable suite
    Sid,
    /// The testing suite
    Trixie(Option<Extension>),
    /// The stable suite
    Bookworm(Option<Extension>),
    /// The oldstable suite
    Bullseye(Option<Extension>),
    /// The experimental suite
    RCBuggy,
}

/// Represents either a suite or codename
///
/// This enum is useful whenever a suite name or codename works
#[derive(Clone, Copy, Debug, PartialEq, Eq, Hash, Structural)]
pub enum SuiteOrCodename {
    /// A suite
    Suite(Suite),
    /// A codename
    Codename(Codename),
}

/// `base`, followed by `-` and the extension where there is one.
pub open spec fn with_extension_text(base: Seq<char>, ext: Option<Extension>) -> Seq<char> {
    match ext {
        Some(e) => base + "-"@ + extension_name(e),
        None => base,
    }
}

/// The name of a suite, such as `stable-backports`.
pub open spec fn suite_text(s: Suite) -> Seq<char> {
    match s {
        Suite::Unstable => "unstable"@,
        Suite::Testing(e) => with_extension_text("testing"@, e),
        Suite::Stable(e) => with_extension_text("stable"@, e),
        Suite::OldStable(e) => with_extension_text("oldstable"@, e),
        Suite::Experimental => "experimental"@,
    }
}

/// The name of a codename, such as `bookworm-backports`.
pub open spec fn codename_text(c: Codename) -> Seq<char> {
    match c {
        Codename::Sid => "sid"@,
        Codename::Trixie(e) => with_extension_text("trixie"@, e),
        Codename::Bookworm(e) => with_extension_text("bookworm"@, e),
        Codename::Bullseye(e) => with_extension_text("bullseye"@, e),
        Codename::RCBuggy => "rc-buggy"@,
    }
}

/// The name of a suite or codename.
pub open spec fn suite_or_codename_text(s: SuiteOrCodename) -> Seq<char> {
    match s {
        SuiteOrCodename::Suite(x) => suite_text(x),
        SuiteOrCodename::Codename(x) => codename_text(x),
    }
}

/// Parsing of suite names; `proposed-updates` is the name that the
/// `Release` file of stable's proposed-updates gives.
pub open spec fn parse_suite(v: Seq<char>) -> Result<Suite, ParseError> {
    if v == "unstable"@ {
        Ok(Suite::Unstable)
    } else if v == "testing"@ {
        Ok(Suite::Testing(None))
    } else if v == "stable"@ {
        Ok(Suite::Stable(None))
    } else if v == "oldstable"@ {
        Ok(Suite::OldStable(None))
    } else if v == "proposed-updates"@ {
        Ok(Suite::Stable(Some(Extension::ProposedUpdates)))
    } else if v == "experimental"@ {
        Ok(Suite::Experimental)
    } else {
        match split_once(v, '-') {
            None => Err(ParseError::InvalidSuite),
            Some(p) => match parse_extension(p.1) {
                None => Err(ParseError::InvalidExtension),
                Some(ext) => if p.0 == "testing"@ {
                    Ok(Suite::Testing(Some(ext)))
                } else if p.0 == "stable"@ {
                    Ok(Suite::Stable(Some(ext)))
                } else if p.0 == "oldstable"@ {
                    Ok(Suite::OldStable(Some(ext)))
                } else {
                    Err(ParseError::InvalidSuite)
                },
            },
        }
    }
}

/// Parsing of codenames.
pub open spec fn parse_codename(v: Seq<char>) -> Result<Codename, ParseError> {
    if v == "sid"@ {
        Ok(Codename::Sid)
    } else if v == "trixie"@ {
        Ok(Codename::Trixie(None))
    } else if v == "bookworm"@ {
        Ok(Codename::Bookworm(None))
    } else if v == "bullseye"@ {
        Ok(Codename::Bullseye(None))
    } else if v == "rc-buggy"@ {
        Ok(Codename::RCBuggy)
    } else {
        match split_once(v, '-') {
            None => Err(ParseError::InvalidCodename),
            Some(p) => match parse_extension(p.1) {
                None => Err(ParseError::InvalidExtension),
                Some(ext) => if p.0 == "trixie"@ {
                    Ok(Codename::Trixie(Some(ext)))
                } else if p.0 == "bookworm"@ {
                    Ok(Codename::Bookworm(Some(ext)))
                } else if p.0 == "bullseye"@ {
                    Ok(Codename::Bullseye(Some(ext)))
                } else {
                    Err(ParseError::InvalidCodename)
                },
            },
        }
    }
}

/// Parsing of a suite name, or else of a codename.
pub open spec fn parse_suite_or_codename(v: Seq<char>) -> Result<SuiteOrCodename, ParseError> {
    match parse_suite(v) {
        Ok(s) => Ok(SuiteOrCodename::Suite(s)),
        Err(_) => match parse_codename(v) {
            Ok(c) => Ok(SuiteOrCodename::Codename(c)),
            Err(_) => Err(ParseError::InvalidSuiteOrCodename),
        },
    }
}

/// The codename of a suite.
pub open spec fn codename_of(s: Suite) -> Codename {
    match s {
        Suite::Unstable => Codename::Sid,
        Suite::Testing(e) => Codename::Trixie(e),
        Suite::Stable(e) => Codename::Bookworm(e),
        Suite::OldStable(e) => Codename::Bullseye(e),
        Suite::Experimental => Codename::RCBuggy,
    }
}

/// The suite of a codename.
pub open spec fn suite_of(c: Codename) -> Suite {
    match c {
        Codename::Sid => Suite::Unstable,
        Codename::Trixie(e) => Suite::Testing(e),
        Codename::Bookworm(e) => Suite::Stable(e),
        Codename::Bullseye(e) => Suite::OldStable(e),
        Codename::RCBuggy => Suite::Experimental,
    }
}

/// The suite of a suite or codename.
pub open spec fn soc_suite(s: SuiteOrCodename) -> Suite {
    match s {
        SuiteOrCodename::Suite(x) => x,
        SuiteOrCodename::Codename(c) => suite_of(c),
    }
}

/// The codename of a suite or codename.
pub open spec fn soc_codename(s: SuiteOrCodename) -> Codename {
    match s {
        SuiteOrCodename::Suite(x) => codename_of(x),
        SuiteOrCodename::Codename(c) => c,
    }
}

/// A suite with its extension replaced; `unstable` and `experimental` stay.
pub open spec fn suite_with_extension(s: Suite, e: Option<Extension>) -> Suite {
    match s {
        Suite::Unstable => Suite::Unstable,
        Suite::Experimental => Suite::Experimental,
        Suite::Testing(_) => Suite::Testing(e),
        Suite::Stable(_) => Suite::Stable(e),
        Suite::OldStable(_) => Suite::OldStable(e),
    }
}

/// A codename with its extension replaced; `sid` and `rc-buggy` stay.
pub open spec fn codename_with_extension(c: Codename, e: Option<Extension>) -> Codename {
    match c {
        Codename::Sid => Codename::Sid,
        Codename::RCBuggy => Codename::RCBuggy,
        Codename::Trixie(_) => Codename::Trixie(e),
        Codename::Bookworm(_) => Codename::Bookworm(e),
        Codename::Bullseye(_) => Codename::Bullseye(e),
    }
}

/// A suite or codename with its extension replaced.
pub open spec fn soc_with_extension(s: SuiteOrCodename, e: Option<Extension>) -> SuiteOrCodename {
    match s {
        SuiteOrCodename::Suite(x) => SuiteOrCodename::Suite(suite_with_extension(x, e)),
        SuiteOrCodename::Codename(c) => SuiteOrCodename::Codename(codename_with_extension(c, e)),
    }
}

/// Splits `value` at its first `-` and parses the extension after it.
fn split_extension(value: &str) -> (r: Option<(String, Result<Extension, ParseError>)>)
    ensures
        match split_once(value@, '-') {
            None => r is None,
            Some(p) => r matches Some(q) && q.0@ == p.0 && q.1 == (match parse_extension(p.1) {
                Some(e) => Ok(e),
                None => Err(ParseError::InvalidExtension),
            }),
        },
{
    let v = chars_of(value);
    let i = find_char(&v, '-');
    if i == v.len() {
        return None;
    }
    let head = string_of(&v, 0, i);
    let tail = string_of(&v, i + 1, v.len());
    Some((head, Extension::try_from(tail.as_str())))
}

impl Suite {
    /// Extend suite with an extension archive.
    ///
    /// An existing extension will overriden and the method has no effect for`unstable` and `experimental`.
    pub fn with_extension(&self, extension: Extension) -> (r: Self)
        ensures
            r == suite_with_extension(*self, Some(extension)),
    {
        match self {
            Self::Unstable | Self::Experimental => *self,
            Self::Testing(_) => Self::Testing(Some(extension)),
            Self::Stable(_) => Self::Stable(Some(extension)),
            Self::OldStable(_) => Self::OldStable(Some(extension)),
        }
    }

    /// Remove an extension archive from the suite.
    ///
    /// The method has no effect for`unstable` and `experimental`.
    pub fn without_extension(&self) -> (r: Self)
        ensures
            r == suite_with_extension(*self, None),
    {
        match self {
            Self::Unstable | Self::Experimental => *self,
            Self::Testing(_) => Self::Testing(None),
            Self::Stable(_) => Self::Stable(None),
            Self::OldStable(_) => Self::OldStable(None),
        }
    }

    /// The name of the suite.
    pub fn to_string(&self) -> (r: String)
        ensures
            r@ == suite_text(*self),
    {
        let (base, ext) = match self {
            Self::Unstable => ("unstable", None),
            Self::Testing(e) => ("testing", *e),
            Self::Stable(e) => ("stable", *e),
            Self::OldStable(e) => ("oldstable", *e),
            Self::Experimental => ("experimental", None),
        };
        let mut s = String::from_str(base);
        if let Some(e) = ext {
            s.append("-");
            s.append(e.as_str());
        }
        s
    }

    /// Parses a suite name.
    pub fn try_from(value: &str) -> (r: Result<Self, ParseError>)
        ensures
            r == parse_suite(value@),
    {
        if str_eq(value, "unstable") {
            Ok(Self::Unstable)
        } else if str_eq(value, "testing") {
            Ok(Self::Testing(None))
        } else if str_eq(value, "stable") {
            Ok(Self::Stable(None))
        } else if str_eq(value, "oldstable") {
            Ok(Self::OldStable(None))
        } else if str_eq(value, "proposed-updates") {
            Ok(Self::Stable(Some(Extension::ProposedUpdates)))
        } else if str_eq(value, "experimental") {
            Ok(Self::Experimental)
        } else {
            match split_extension(value) {
                None => Err(ParseError::InvalidSuite),
                Some((head, ext)) => match ext {
                    Err(e) => Err(e),
                    Ok(ext) => if str_eq(head.as_str(), "testing") {
                        Ok(Self::Testing(Some(ext)))
                    } else if str_eq(head.as_str(), "stable") {
                        Ok(Self::Stable(Some(ext)))
                    } else if str_eq(head.as_str(), "oldstable") {
                        Ok(Self::OldStable(Some(ext)))
                    } else {
                        Err(ParseError::InvalidSuite)
                    },
                },
            }
        }
    }
}

impl Codename {
    /// Extend codename with an extension archive; no effect for `sid` and `rc-buggy`.
    pub fn with_extension(&self, extension: Extension) -> (r: Self)
        ensures
            r == codename_with_extension(*self, Some(extension)),
    {
        match self {
            Self::Sid | Self::RCBuggy => *self,
            Self::Trixie(_) => Self::Trixie(Some(extension)),
            Self::Bookworm(_) => Self::Bookworm(Some(extension)),
            Self::Bullseye(_) => Self::Bullseye(Some(extension)),
        }
    }

    /// Remove an extension archive from the codename.
    pub fn without_extension(&self) -> (r: Self)
        ensures
            r == codename_with_extension(*self, None),
    {
        match self {
            Self::Sid | Self::RCBuggy => *self,
            Self::Trixie(_) => Self::Trixie(None),
            Self::Bookworm(_) => Self::Bookworm(None),
            Self::Bullseye(_) => Self::Bullseye(None),
        }
    }

    /// The codename as text.
    pub fn to_string(&self) -> (r: String)
        ensures
            r@ == codename_text(*self),
    {
        let (base, ext) = match self {
            Self::Sid => ("sid", None),
            Self::Trixie(e) => ("trixie", *e),
            Self::Bookworm(e) => ("bookworm", *e),
            Self::Bullseye(e) => ("bullseye", *e),
            Self::RCBuggy => ("rc-buggy", None),
        };
        let mut s = String::from_str(base);
        if let Some(e) = ext {
            s.append("-");
            s.append(e.as_str());
        }
        s
    }

    /// Parses a codename.
    pub fn try_from(value: &str) -> (r: Result<Self, ParseError>)
        ensures
            r == parse_codename(value@),
    {
        if str_eq(value, "sid") {
            Ok(Self::Sid)
        } else if str_eq(value, "trixie") {
            Ok(Self::Trixie(None))
        } else if str_eq(value, "bookworm") {
            Ok(Self::Bookworm(None))
        } else if str_eq(value, "bullseye") {
            Ok(Self::Bullseye(None))
        } else if str_eq(value, "rc-buggy") {
            Ok(Self::RCBuggy)
        } else {
            match split_extension(value) {
                None => Err(ParseError::InvalidCodename),
                Some((head, ext)) => match ext {
                    Err(e) => Err(e),
                    Ok(ext) => if str_eq(head.as_str(), "trixie") {
                        Ok(Self::Trixie(Some(ext)))
                    } else if str_eq(head.as_str(), "bookworm") {
                        Ok(Self::Bookworm(Some(ext)))
                    } else if str_eq(head.as_str(), "bullseye") {
                        Ok(Self::Bullseye(Some(ext)))
                    } else {
                        Err(ParseError::InvalidCodename)
                    },
                },
            }
        }
    }
}

impl SuiteOrCodename {
    /// Unstable
    pub fn unstable() -> (r: Self)
        ensures
            r == Self::Suite(Suite::Unstable),
    {
        Self::Suite(Suite::Unstable)
    }

    /// Testing
    pub fn testing() -> (r: Self)
        ensures
            r == Self::Suite(Suite::Testing(None)),
    {
        Self::Suite(Suite::Testing(None))
    }

    /// Stable
    pub fn stable() -> (r: Self)
        ensures
            r == Self::Suite(Suite::Stable(None)),
    {
        Self::Suite(Suite::Stable(None))
    }

    /// Oldstable
    pub fn oldstable() -> (r: Self)
        ensures
            r == Self::Suite(Suite::OldStable(None)),
    {
        Self::Suite(Suite::OldStable(None))
    }

    /// Experimental
    pub fn experimental() -> (r: Self)
        ensures
            r == Self::Suite(Suite::Experimental),
    {
        Self::Suite(Suite::Experimental)
    }

    /// Stable proposed-updates
    pub fn stable_pu() -> (r: Self)
        ensures
            r == Self::Suite(Suite::Stable(Some(Extension::ProposedUpdates))),
    {
        Self::Suite(Suite::Stable(Some(Extension::ProposedUpdates)))
    }

    /// Oldstable propoused-updates
    pub fn oldstable_pu() -> (r: Self)
        ensures
            r == Self::Suite(Suite::OldStable(Some(Extension::ProposedUpdates))),
    {
        Self::Suite(Suite::OldStable(Some(Extension::ProposedUpdates)))
    }

    /// Stable backports
    pub fn stable_backports() -> (r: Self)
        ensures
            r == Self::Suite(Suite::Stable(Some(Extension::Backports))),
    {
        Self::Suite(Suite::Stable(Some(Extension::Backports)))
    }


    /// Parses a suite name, or else a codename.
    pub fn try_from(value: &str) -> (r: Result<Self, ParseError>)
        ensures
            r == parse_suite_or_codename(value@),
    {
        match Suite::try_from(value) {
            Ok(suite) => Ok(Self::Suite(suite)),
            Err(_) => match Codename::try_from(value) {
                Ok(codename) => Ok(Self::Codename(codename)),
                Err(_) => Err(ParseError::InvalidSuiteOrCodename),
            },
        }
    }

    /// The name of the suite or codename.
    pub fn to_string(&self) -> (r: String)
        ensures
            r@ == suite_or_codename_text(*self),
    {
        match self {
            Self::Suite(s) => s.to_string(),
            Self::Codename(c) => c.to_string(),
        }
    }

    /// Extend with an extension archive; no effect for unstable and experimental.
    pub fn with_extension(&self, extension: Extension) -> (r: Self)
        ensures
            r == soc_with_extension(*self, Some(extension)),
    {
        match self {
            Self::Suite(s) => Self::Suite(s.with_extension(extension)),
            Self::Codename(c) => Self::Codename(c.with_extension(extension)),
        }
    }

    /// Remove an extension archive.
    pub fn without_extension(&self) -> (r: Self)
        ensures
            r == soc_with_extension(*self, None),
    {
        match self {
            Self::Suite(s) => Self::Suite(s.without_extension()),
            Self::Codename(c) => Self::Codename(c.without_extension()),
        }
    }
}

impl From<Suite> for Codename {
    fn from(suite: Suite) -> (r: Self) {
        match suite {
            Suite::Unstable => Self::Sid,
            Suite::Testing(ext) => Self::Trixie(ext),
            Suite::Stable(ext) => Self::Bookworm(ext),
            Suite::OldStable(ext) => Self::Bullseye(ext),
            Suite::Experimental => Self::RCBuggy,
        }
    }
}

impl vstd::std_specs::convert::FromSpecImpl<Suite> for Codename {
    open spec fn obeys_from_spec() -> bool {
        true
    }

    open spec fn from_spec(suite: Suite) -> Self {
        codename_of(suite)
    }
}

impl From<Codename> for Suite {
    fn from(codename: Codename) -> (r: Self) {
        match codename {
            Codename::Sid => Self::Unstable,
            Codename::Trixie(ext) => Self::Testing(ext),
            Codename::Bookworm(ext) => Self::Stable(ext),
            Codename::Bullseye(ext) => Self::OldStable(ext),
            Codename::RCBuggy => Self::Experimental,
        }
    }
}

impl vstd::std_specs::convert::FromSpecImpl<Codename> for Suite {
    open spec fn obeys_from_spec() -> bool {
        true
    }

    open spec fn from_spec(codename: Codename) -> Self {
        suite_of(codename)
    }
}

impl From<Codename> for SuiteOrCodename {
    fn from(codename: Codename) -> (r: Self) {
        Self::Codename(codename)
    }
}

impl vstd::std_specs::convert::FromSpecImpl<Codename> for SuiteOrCodename {
    open spec fn obeys_from_spec() -> bool {
        true
    }

    open spec fn from_spec(codename: Codename) -> Self {
        SuiteOrCodename::Codename(codename)
    }
}

impl From<Suite> for SuiteOrCodename {
    fn from(suite: Suite) -> (r: Self) {
        Self::Suite(suite)
    }
}

impl vstd::std_specs::convert::FromSpecImpl<Suite> for SuiteOrCodename {
    open spec fn obeys_from_spec() -> bool {
        true
    }

    open spec fn from_spec(suite: Suite) -> Self {
        SuiteOrCodename::Suite(suite)
    }
}

impl From<SuiteOrCodename> for Suite {
    fn from(value: SuiteOrCodename) -> (r: Self) {
        match value {
            SuiteOrCodename::Suite(suite) => suite,
            SuiteOrCodename::Codename(codename) => Self::from(codename),
        }
    }
}

impl vstd::std_specs::convert::FromSpecImpl<SuiteOrCodename> for Suite {
    open spec fn obeys_from_spec() -> bool {
        true
    }

    open spec fn from_spec(value: SuiteOrCodename) -> Self {
        soc_suite(value)
    }
}

impl From<SuiteOrCodename> for Codename {
    fn from(value: SuiteOrCodename) -> (r: Self) {
        match value {
            SuiteOrCodename::Suite(suite) => Self::from(suite),
            SuiteOrCodename::Codename(codename) => codename,
        }
    }
}

impl vstd::std_specs::convert::FromSpecImpl<SuiteOrCodename> for Codename {
    open spec fn obeys_from_spec() -> bool {
        true
    }

    open spec fn from_spec(value: SuiteOrCodename) -> Self {
        soc_codename(value)
    }
}

impl std::str::FromStr for Suite {
    type Err = ParseError;

    fn from_str(s: &str) -> (r: Result<Self, Self::Err>)
        ensures
            r == parse_suite(s@),
    {
        Self::try_from(s)
    }
}

impl std::str::FromStr for Codename {
    type Err = ParseError;

    fn from_str(s: &str) -> (r: Result<Self, Self::Err>)
        ensures
            r == parse_codename(s@),
    {
        Self::try_from(s)
    }
}

impl std::str::FromStr for SuiteOrCodename {
    type Err = ParseError;

    fn from_str(s: &str) -> (r: Result<Self, Self::Err>)
        ensures
            r == parse_suite_or_codename(s@),
    {
        Self::try_from(s)
    }
}

/// A base name without `-` followed by `-` and an extension splits at that
/// `-` into the base and the extension.
proof fn lemma_base_extension_text(b: Seq<char>, x: Extension)
    requires
        b.len() > 0,
        forall|i: int| 0 <= i < b.len() ==> b[i] != '-',
    ensures
        split_once(b + seq!['-'] + extension_name(x), '-') == Some((b, extension_name(x))),
        (b + seq!['-'] + extension_name(x)).len() > b.len() + 1,
        (b + seq!['-'] + extension_name(x))[0] == b[0],
{
    let n = extension_name(x);
    let v = b + seq!['-'] + n;
    lemma_first_index_after(b, '-', n);
    assert(v.subrange(0, b.len() as int) =~= b);
    assert(v.subrange(b.len() + 1int, v.len() as int) =~= n);
    lemma_extension_text_parse(x);
    reveal_strlit("backports");
    reveal_strlit("security");
    reveal_strlit("updates");
    reveal_strlit("proposed-updates");
    assert(n.len() > 0);
}

/// A suite or codename with an extension is written as its base name, `-`
/// and the extension's name, and reads back from that text: so
/// `stable-security` is the security extension of stable, and
/// `bookworm-security` that of bookworm.
pub proof fn lemma_extension_suite_texts(x: Extension)
    ensures
        suite_text(Suite::Testing(Some(x))) == seq!['t', 'e', 's', 't', 'i', 'n', 'g'] + seq!['-'] + extension_name(x),
        parse_suite(seq!['t', 'e', 's', 't', 'i', 'n', 'g'] + seq!['-'] + extension_name(x)) == Ok::<Suite, ParseError>(Suite::Testing(Some(x))),
        suite_text(Suite::Stable(Some(x))) == seq!['s', 't', 'a', 'b', 'l', 'e'] + seq!['-'] + extension_name(x),
        parse_suite(seq!['s', 't', 'a', 'b', 'l', 'e'] + seq!['-'] + extension_name(x)) == Ok::<Suite, ParseError>(Suite::Stable(Some(x))),
        suite_text(Suite::OldStable(Some(x))) == seq!['o', 'l', 'd', 's', 't', 'a', 'b', 'l', 'e'] + seq!['-'] + extension_name(x),
        parse_suite(seq!['o', 'l', 'd', 's', 't', 'a', 'b', 'l', 'e'] + seq!['-'] + extension_name(x)) == Ok::<Suite, ParseError>(Suite::OldStable(Some(x))),
        codename_text(Codename::Trixie(Some(x))) == seq!['t', 'r', 'i', 'x', 'i', 'e'] + seq!['-'] + extension_name(x),
        parse_codename(seq!['t', 'r', 'i', 'x', 'i', 'e'] + seq!['-'] + extension_name(x)) == Ok::<Codename, ParseError>(Codename::Trixie(Some(x))),
        codename_text(Codename::Bookworm(Some(x))) == seq!['b', 'o', 'o', 'k', 'w', 'o', 'r', 'm'] + seq!['-'] + extension_name(x),
        parse_codename(seq!['b', 'o', 'o', 'k', 'w', 'o', 'r', 'm'] + seq!['-'] + extension_name(x)) == Ok::<Codename, ParseError>(Codename::Bookworm(Some(x))),
        codename_text(Codename::Bullseye(Some(x))) == seq!['b', 'u', 'l', 'l', 's', 'e', 'y', 'e'] + seq!['-'] + extension_name(x),
        parse_codename(seq!['b', 'u', 'l', 'l', 's', 'e', 'y', 'e'] + seq!['-'] + extension_name(x)) == Ok::<Codename, ParseError>(Codename::Bullseye(Some(x))),
{
    reveal_strlit("-");
    reveal_strlit("unstable");
    reveal_strlit("testing");
    reveal_strlit("stable");
    reveal_strlit("oldstable");
    reveal_strlit("proposed-updates");
    reveal_strlit("experimental");
    reveal_strlit("sid");
    reveal_strlit("trixie");
    reveal_strlit("bookworm");
    reveal_strlit("bullseye");
    reveal_strlit("rc-buggy");
    reveal_strlit("-");
    reveal_strlit("backports");
    reveal_strlit("security");
    reveal_strlit("updates");
    assert("-"@ =~= seq!['-']);
    lemma_base_extension_text(seq!['t', 'e', 's', 't', 'i', 'n', 'g'], x);
    assert("testing"@ =~= seq!['t', 'e', 's', 't', 'i', 'n', 'g']);
    lemma_base_extension_text(seq!['s', 't', 'a', 'b', 'l', 'e'], x);
    assert("stable"@ =~= seq!['s', 't', 'a', 'b', 'l', 'e']);
    lemma_base_extension_text(seq!['o', 'l', 'd', 's', 't', 'a', 'b', 'l', 'e'], x);
    assert("oldstable"@ =~= seq!['o', 'l', 'd', 's', 't', 'a', 'b', 'l', 'e']);
    lemma_base_extension_text(seq!['t', 'r', 'i', 'x', 'i', 'e'], x);
    assert("trixie"@ =~= seq!['t', 'r', 'i', 'x', 'i', 'e']);
    lemma_base_extension_text(seq!['b', 'o', 'o', 'k', 'w', 'o', 'r', 'm'], x);
    assert("bookworm"@ =~= seq!['b', 'o', 'o', 'k', 'w', 'o', 'r', 'm']);
    lemma_base_extension_text(seq!['b', 'u', 'l', 'l', 's', 'e', 'y', 'e'], x);
    assert("bullseye"@ =~= seq!['b', 'u', 'l', 'l', 's', 'e', 'y', 'e']);
    lemma_extension_names(extension_name(x), x);
}

/// Converting a suite to its codename and back gives the suite.
pub proof fn lemma_suite_codename_suite(s: Suite)
    ensures
        suite_of(codename_of(s)) == s,
{
}

/// Converting a codename to its suite and back gives the codename.
pub proof fn lemma_codename_suite_codename(c: Codename)
    ensures
        codename_of(suite_of(c)) == c,
{
}

/// A suite or codename names the same suite and codename whichever way it is written.
pub proof fn lemma_suite_or_codename_consistent(s: SuiteOrCodename)
    ensures
        codename_of(soc_suite(s)) == soc_codename(s),
        suite_of(soc_codename(s)) == soc_suite(s),
{
}

/// Removing an extension undoes adding one, and adding an extension
/// replaces any earlier one.
pub proof fn lemma_extension_roundtrip(s: Suite, e: Extension, f: Option<Extension>)
    ensures
        suite_with_extension(suite_with_extension(s, Some(e)), None) == suite_with_extension(s, None),
        suite_with_extension(suite_with_extension(s, f), Some(e)) == suite_with_extension(s, Some(e)),
{
}

/// The codename of a suite with an extension is the codename with that extension.
pub proof fn lemma_codename_with_extension(s: Suite, e: Option<Extension>)
    ensures
        codename_of(suite_with_extension(s, e)) == codename_with_extension(codename_of(s), e),
{
}

/// Allowed values of the multi-arch field
#[derive(Clone, Copy, Debug, PartialEq, Eq, Hash, Structural)]
pub enum MultiArch {
    /// MA: allowed
    Allowed,
    /// MA: foreign
    Foreign,
    /// MA: no
    No,
    /// MA: same
    Same,
}

/// The text of each value.
pub open spec fn multi_arch_name(x: MultiArch) -> Seq<char> {
    match x {
        MultiArch::Allowed => "allowed"@,
        MultiArch::Foreign => "foreign"@,
        MultiArch::No => "no"@,
        MultiArch::Same => "same"@,
    }
}

/// The value that a text names, if any.
pub open spec fn parse_multi_arch(s: Seq<char>) -> Option<MultiArch> {
    if s == "allowed"@ {
        Some(MultiArch::Allowed)
    } else if s == "foreign"@ {
        Some(MultiArch::Foreign)
    } else if s == "no"@ {
        Some(MultiArch::No)
    } else if s == "same"@ {
        Some(MultiArch::Same)
    } else {
        None
    }
}

impl MultiArch {
    /// The text of the value.
    pub fn as_str(&self) -> (r: &'static str)
        ensures
            r@ == multi_arch_name(*self),
    {
        match self {
            MultiArch::Allowed => "allowed",
            MultiArch::Foreign => "foreign",
            MultiArch::No => "no",
            MultiArch::Same => "same",
        }
    }

    /// Parses the text of a value.
    pub fn try_from(value: &str) -> (r: Result<Self, ParseError>)
        ensures
            r == (match parse_multi_arch(value@) {
                Some(x) => Ok(x),
                None => Err(ParseError::InvalidMultiArch),
            }),
    {
        if str_eq(value, "allowed") {
            Ok(MultiArch::Allowed)
        } else if str_eq(value, "foreign") {
            Ok(MultiArch::Foreign)
        } else if str_eq(value, "no") {
            Ok(MultiArch::No)
        } else if str_eq(value, "same") {
            Ok(MultiArch::Same)
        } else {
            Err(ParseError::InvalidMultiArch)
        }
    }
}

impl std::str::FromStr for MultiArch {
    type Err = ParseError;

    fn from_str(s: &str) -> (r: Result<Self, Self::Err>)
        ensures
            r == (match parse_multi_arch(s@) {
                Some(x) => Ok(x),
                None => Err(ParseError::InvalidMultiArch),
            }),
    {
        Self::try_from(s)
    }
}

/// Parsing the text of a value gives the value back.
pub proof fn lemma_multi_arch_text_parse(x: MultiArch)
    ensures
        parse_multi_arch(multi_arch_name(x)) == Some(x),
{
    reveal_strlit("allowed");
    reveal_strlit("foreign");
    reveal_strlit("no");
    reveal_strlit("same");
    match x {
        MultiArch::Allowed => {
        },
        MultiArch::Foreign => {
            assert("foreign"@[0] != "allowed"@[0]);
        },
        MultiArch::No => {
            assert("no"@.len() != "allowed"@.len());
            assert("no"@.len() != "foreign"@.len());
        },
        MultiArch::Same => {
            assert("same"@.len() != "allowed"@.len());
            assert("same"@.len() != "foreign"@.len());
            assert("same"@.len() != "no"@.len());
        },
    }
}

/// Debian archive components
#[derive(Clone, Copy, Debug, PartialEq, Eq, Hash, Structural)]
pub enum Component {
    /// The `main` archive component
    Main,
    /// The `contrib` archive component
    Contrib,
    /// The `non-free` archive component
    NonFree,
    /// The `non-free-firmware` archive component
    NonFreeFirmware,
}

/// The text of each value.
pub open spec fn component_name(x: Component) -> Seq<char> {
    match x {
        Component::Main => "main"@,
        Component::Contrib => "contrib"@,
        Component::NonFree => "non-free"@,
        Component::NonFreeFirmware => "non-free-firmware"@,
    }
}

/// The value that a text names, if any.
pub open spec fn parse_component(s: Seq<char>) -> Option<Component> {
    if s == "main"@ {
        Some(Component::Main)
    } else if s == "contrib"@ {
        Some(Component::Contrib)
    } else if s == "non-free"@ {
        Some(Component::NonFree)
    } else if s == "non-free-firmware"@ {
        Some(Component::NonFreeFirmware)
    } else {
        None
    }
}

impl Component {
    /// The text of the value.
    pub fn as_str(&self) -> (r: &'static str)
        ensures
            r@ == component_name(*self),
    {
        match self {
            Component::Main => "main",
            Component::Contrib => "contrib",
            Component::NonFree => "non-free",
            Component::NonFreeFirmware => "non-free-firmware",
        }
    }

    /// Parses the text of a value.
    pub fn try_from(value: &str) -> (r: Result<Self, ParseError>)
        ensures
            r == (match parse_component(value@) {
                Some(x) => Ok(x),
                None => Err(ParseError::InvalidComponent),
            }),
    {
        if str_eq(value, "main") {
            Ok(Component::Main)
        } else if str_eq(value, "contrib") {
            Ok(Component::Contrib)
        } else if str_eq(value, "non-free") {
            Ok(Component::NonFree)
        } else if str_eq(value, "non-free-firmware") {
            Ok(Component::NonFreeFirmware)
        } else {
            Err(ParseError::InvalidComponent)
        }
    }
}

impl std::str::FromStr for Component {
    type Err = ParseError;

    fn from_str(s: &str) -> (r: Result<Self, Self::Err>)
        ensures
            r == (match parse_component(s@) {
                Some(x) => Ok(x),
                None => Err(ParseError::InvalidComponent),
            }),
    {
        Self::try_from(s)
    }
}

/// Parsing the text of a value gives the value back.
pub proof fn lemma_component_text_parse(x: Component)
    ensures
        parse_component(component_name(x)) == Some(x),
{
    reveal_strlit("main");
    reveal_strlit("contrib");
    reveal_strlit("non-free");
    reveal_strlit("non-free-firmware");
    match x {
        Component::Main => {
        },
        Component::Contrib => {
            assert("contrib"@.len() != "main"@.len());
        },
        Component::NonFree => {
            assert("non-free"@.len() != "main"@.len());
            assert("non-free"@.len() != "contrib"@.len());
        },
        Component::NonFreeFirmware => {
            assert("non-free-firmware"@.len() != "main"@.len());
            assert("non-free-firmware"@.len() != "contrib"@.len());
            assert("non-free-firmware"@.len() != "non-free"@.len());
        },
    }
}

} // verus!
