//! Commands for wanna-build (`wb`): binNMUs (`nmu`), dependency waits
//! (`dw`) and build priorities (`bp`).

use vstd::prelude::*;

use crate::architectures::{architecture_name, parse_architecture, Architecture};
use crate::error::ParseError;
use crate::text::{chars_of, push_decimal, push_signed_decimal, signed_decimal, decimal, str_eq, string_of};

verus! {

/// Architectures understood by `wb`
///
/// In addition to the the architectures from [Architecture], `wb` has two special "architectures"
/// named `ANY` (all binary-dependent architectures) and `ALL` (all architectures). Also, it
/// supports negation of architectures, e.g., `ANY -i386` refers to all binary-dependent
/// architectures without `i386`.
#[derive(Clone, Copy, Debug, PartialEq, Eq, Hash, Structural)]
pub enum WBArchitecture {
    /// The special `ANY` architecture, i.e., all architectures understood by wb except `all`
    Any,
    /// The special `ALL` architecture, i.e., all architectures understood by wb
    All,
    /// Specify an architecture
    Architecture(Architecture),
    /// Exclude a specific architecture
    MinusArchitecture(Architecture),
}

/// Errors when working with `wb`
#[derive(Debug)]
pub enum Error {
    /// An invalid architecture for a command was specified
    InvalidArchitecture(WBArchitecture, &'static str),
    /// Execution of `wb` failed
    ExecutionError,
}

/// The text of a `wb` architecture.
pub open spec fn wb_architecture_text(a: WBArchitecture) -> Seq<char> {
    match a {
        WBArchitecture::Any => "ANY"@,
        WBArchitecture::All => "ALL"@,
        WBArchitecture::Architecture(x) => architecture_name(x),
        WBArchitecture::MinusArchitecture(x) => "-"@ + architecture_name(x),
    }
}

/// Parsing of a `wb` architecture: `ANY`, `ALL`, an architecture, or `-`
/// and an architecture.
pub open spec fn parse_wb_architecture(s: Seq<char>) -> Result<WBArchitecture, ParseError> {
    if s == "ANY"@ {
        Ok(WBArchitecture::Any)
    } else if s == "ALL"@ {
        Ok(WBArchitecture::All)
    } else if s.len() > 0 && s[0] == '-' {
        match parse_architecture(s.drop_first()) {
            Some(a) => Ok(WBArchitecture::MinusArchitecture(a)),
            None => Err(ParseError::InvalidArchitecture),
        }
    } else {
        match parse_architecture(s) {
            Some(a) => Ok(WBArchitecture::Architecture(a)),
            None => Err(ParseError::InvalidArchitecture),
        }
    }
}

impl WBArchitecture {
    /// The text of the architecture.
    pub fn to_string(&self) -> (r: String)
        ensures
            r@ == wb_architecture_text(*self),
    {
        match self {
            WBArchitecture::Any => String::from_str("ANY"),
            WBArchitecture::All => String::from_str("ALL"),
            WBArchitecture::Architecture(a) => String::from_str(a.as_str()),
            WBArchitecture::MinusArchitecture(a) => {
                let mut s = String::from_str("-");
                s.append(a.as_str());
                s
            },
        }
    }

    /// Parses `ANY`, `ALL`, an architecture, or `-` and an architecture.
    pub fn try_from(value: &str) -> (r: Result<Self, ParseError>)
        ensures
            r == parse_wb_architecture(value@),
    {
        if str_eq(value, "ANY") {
            return Ok(WBArchitecture::Any);
        }
        if str_eq(value, "ALL") {
            return Ok(WBArchitecture::All);
        }
        let v = chars_of(value);
        if v.len() > 0 && v[0] == '-' {
            let rest = string_of(&v, 1, v.len());
            assert(rest@ =~= value@.drop_first());
            match Architecture::try_from(rest.as_str()) {
                Ok(a) => Ok(WBArchitecture::MinusArchitecture(a)),
                Err(e) => Err(e),
            }
        } else {
            match Architecture::try_from(value) {
                Ok(a) => Ok(WBArchitecture::Architecture(a)),
                Err(e) => Err(e),
            }
        }
    }
}

/// Parsing the text of a `wb` architecture gives it back.
pub proof fn lemma_wb_architecture_text_parse(a: WBArchitecture)
    ensures
        parse_wb_architecture(wb_architecture_text(a)) == Ok::<WBArchitecture, ParseError>(a),
{
    reveal_strlit("ANY");
    reveal_strlit("ALL");
    reveal_strlit("-");
    match a {
        WBArchitecture::Any => {},
        WBArchitecture::All => {
            assert("ALL"@[1] != "ANY"@[1]);
        },
        WBArchitecture::Architecture(x) => {
            crate::architectures::lemma_architecture_text_parse(x);
            crate::architectures::lemma_architecture_name_start(x);
            assert(architecture_name(x)[0] != "ANY"@[0]);
            assert(architecture_name(x)[0] != "ALL"@[0]);
        },
        WBArchitecture::MinusArchitecture(x) => {
            crate::architectures::lemma_architecture_text_parse(x);
            let t = "-"@ + architecture_name(x);
            assert(t[0] == '-');
            assert(t[0] != "ANY"@[0]);
            assert(t[0] != "ALL"@[0]);
            assert(t.drop_first() =~= architecture_name(x));
        },
    }
}

impl std::str::FromStr for WBArchitecture {
    type Err = ParseError;

    fn from_str(s: &str) -> (r: Result<Self, Self::Err>)
        ensures
            r == parse_wb_architecture(s@),
    {
        Self::try_from(s)
    }
}

/// A command to be executed by `wb`
#[derive(Debug, Hash)]
pub struct WBCommand(String);

impl View for WBCommand {
    type V = Seq<char>;

    closed spec fn view(&self) -> Seq<char> {
        self.0@
    }
}

impl WBCommand {
    /// The text of the command.
    pub fn as_str(&self) -> (r: &str)
        ensures
            r@ == self@,
    {
        self.0.as_str()
    }

    /// The text of the command.
    pub fn to_string(&self) -> (r: String)
        ensures
            r@ == self@,
    {
        self.0.clone()
    }

    /// A command with the given text.
    pub fn from_text(text: String) -> (r: Self)
        ensures
            r@ == text@,
    {
        WBCommand(text)
    }

    /// A copy of the command.
    pub fn duplicate(&self) -> (r: Self)
        ensures
            r@ == self@,
    {
        WBCommand(self.0.clone())
    }
}

impl Clone for WBCommand {
    fn clone(&self) -> (r: Self)
        ensures
            r@ == self@,
    {
        self.duplicate()
    }
}

impl PartialEq for WBCommand {
    fn eq(&self, other: &Self) -> (r: bool) {
        self.0 == other.0
    }
}

impl Eq for WBCommand {
}

impl vstd::std_specs::cmp::PartialEqSpecImpl for WBCommand {
    open spec fn obeys_eq_spec() -> bool {
        true
    }

    open spec fn eq_spec(&self, other: &Self) -> bool {
        self@ == other@
    }
}

/// A trait to build `wb` commands
pub trait WBCommandBuilder {
    /// Build a `wb` command
    fn build(&self) -> WBCommand;
}

/// Specifier for a source with version, architecture and suite
#[derive(Clone, Debug, PartialEq, Eq)]
pub struct SourceSpecifier<'a> {
    source: &'a str,
    version: Option<&'a str>,
    architectures: Vec<WBArchitecture>,
    suite: Option<&'a str>,
}

/// The content of a source specifier.
pub struct SourceModel {
    pub source: Seq<char>,
    pub version: Option<Seq<char>>,
    pub architectures: Seq<WBArchitecture>,
    pub suite: Option<Seq<char>>,
}

/// The view of an optional string slice.
pub open spec fn opt_view(o: Option<&str>) -> Option<Seq<char>> {
    match o {
        Some(s) => Some(s@),
        None => None,
    }
}

impl<'a> View for SourceSpecifier<'a> {
    type V = SourceModel;

    closed spec fn view(&self) -> SourceModel {
        SourceModel {
            source: self.source@,
            version: opt_view(self.version),
            architectures: self.architectures@,
            suite: opt_view(self.suite),
        }
    }
}

/// Each architecture followed by a space.
pub open spec fn architectures_text(archs: Seq<WBArchitecture>) -> Seq<char>
    decreases archs.len(),
{
    if archs.len() == 0 {
        Seq::empty()
    } else {
        architectures_text(archs.drop_last()) + wb_architecture_text(archs.last()) + " "@
    }
}

/// The text of a source specifier: `source_version . archs . suite`, with
/// `ANY` where no architecture is given and `unstable` where no suite is.
pub open spec fn source_text(m: SourceModel) -> Seq<char> {
    m.source + (match m.version {
        Some(v) => "_"@ + v,
        None => Seq::empty(),
    }) + " . "@ + (if m.architectures.len() == 0 {
        "ANY "@
    } else {
        architectures_text(m.architectures)
    }) + ". "@ + (match m.suite {
        Some(s) => s,
        None => "unstable"@,
    })
}

/// A specifier that names an architecture that command `nmu` cannot take:
/// `source`, `-source` or `ALL` (`nmu`), or only the first two (`dw`, `bp`).
pub open spec fn bad_architecture(a: WBArchitecture, all_too: bool) -> bool {
    a == WBArchitecture::Architecture(Architecture::Source) || a == WBArchitecture::MinusArchitecture(
        Architecture::Source,
    ) || (all_too && a == WBArchitecture::All)
}

/// The first architecture that a command cannot take, if there is one.
pub open spec fn first_bad_architecture(archs: Seq<WBArchitecture>, all_too: bool) -> Option<WBArchitecture>
    decreases archs.len(),
{
    if archs.len() == 0 {
        None
    } else if bad_architecture(archs[0], all_too) {
        Some(archs[0])
    } else {
        first_bad_architecture(archs.drop_first(), all_too)
    }
}

impl<'a> SourceSpecifier<'a> {
    /// Create a new source specifier for the given source package name.
    pub fn new(source: &'a str) -> (r: Self)
        ensures
            r@.source == source@,
            r@.version is None,
            r@.architectures.len() == 0,
            r@.suite is None,
    {
        Self { source, version: None, architectures: Vec::new(), suite: None }
    }

    /// Specify version of the source package.
    pub fn with_version(&mut self, version: &'a str) -> (r: &mut Self)
        ensures
            *final(self) == *final(r),
            (*r)@.source == old(self)@.source,
            (*r)@.version == Some(version@),
            (*r)@.architectures == old(self)@.architectures,
            (*r)@.suite == old(self)@.suite,
    {
        self.version = Some(version);
        self
    }

    /// Specify suite. If not set, `unstable` is used.
    pub fn with_suite(&mut self, suite: &'a str) -> (r: &mut Self)
        ensures
            *final(self) == *final(r),
            (*r)@.source == old(self)@.source,
            (*r)@.version == old(self)@.version,
            (*r)@.architectures == old(self)@.architectures,
            (*r)@.suite == Some(suite@),
    {
        self.suite = Some(suite);
        self
    }

    /// Specify architectures. If not set, the `nmu` will be scheduled for `ANY`.
    pub fn with_architectures(&mut self, architectures: &[WBArchitecture]) -> (r: &mut Self)
        ensures
            *final(self) == *final(r),
            (*r)@.source == old(self)@.source,
            (*r)@.version == old(self)@.version,
            (*r)@.architectures == old(self)@.architectures + architectures@,
            (*r)@.suite == old(self)@.suite,
    {
        let mut i: usize = 0;
        let ghost start = self.architectures@;
        while i < architectures.len()
            invariant
                i <= architectures.len(),
                self.source == old(self).source,
                self.version == old(self).version,
                self.suite == old(self).suite,
                start == old(self).architectures@,
                self.architectures@ == start + architectures@.subrange(0, i as int),
            decreases architectures.len() - i,
        {
            self.architectures.push(architectures[i]);
            assert(self.architectures@ =~= start + architectures@.subrange(0, i + 1));
            i = i + 1;
        }
        assert(architectures@.subrange(0, i as int) =~= architectures@);
        self
    }

    /// Specify architectures. If not set, the `nmu` will be scheduled for `ANY`.
    pub fn with_archive_architectures(&mut self, architectures: &[Architecture]) -> (r: &mut Self)
        ensures
            *final(self) == *final(r),
            (*r)@.source == old(self)@.source,
            (*r)@.version == old(self)@.version,
            (*r)@.architectures == old(self)@.architectures + architectures@.map_values(
                |a: Architecture| WBArchitecture::Architecture(a),
            ),
            (*r)@.suite == old(self)@.suite,
    {
        let mut i: usize = 0;
        let ghost start = self.architectures@;
        while i < architectures.len()
            invariant
                i <= architectures.len(),
                self.source == old(self).source,
                self.version == old(self).version,
                self.suite == old(self).suite,
                start == old(self).architectures@,
                self.architectures@ == start + architectures@.subrange(0, i as int).map_values(
                    |a: Architecture| WBArchitecture::Architecture(a),
                ),
            decreases architectures.len() - i,
        {
            self.architectures.push(WBArchitecture::Architecture(architectures[i]));
            assert(self.architectures@ =~= start + architectures@.subrange(0, i + 1).map_values(
                |a: Architecture| WBArchitecture::Architecture(a),
            ));
            i = i + 1;
        }
        assert(architectures@.subrange(0, i as int) =~= architectures@);
        self
    }

    /// The text of the specifier, `source_version . archs . suite`.
    pub fn to_string(&self) -> (r: String)
        ensures
            r@ == source_text(self@),
    {
        let mut s = String::from_str(self.source);
        if let Some(version) = self.version {
            s.append("_");
            s.append(version);
        }
        s.append(" . ");
        if self.architectures.len() == 0 {
            s.append("ANY ");
        } else {
            let ghost start = s@;
            let mut i: usize = 0;
            while i < self.architectures.len()
                invariant
                    i <= self.architectures.len(),
                    s@ == start + architectures_text(self.architectures@.subrange(0, i as int)),
                decreases self.architectures.len() - i,
            {
                let t = self.architectures[i].to_string();
                s.append(t.as_str());
                s.append(" ");
                assert(self.architectures@.subrange(0, i + 1).drop_last() =~= self.architectures@.subrange(0, i as int));
                assert(s@ =~= start + architectures_text(self.architectures@.subrange(0, i + 1)));
                i = i + 1;
            }
            assert(self.architectures@.subrange(0, i as int) =~= self.architectures@);
        }
        s.append(". ");
        match self.suite {
            Some(suite) => s.append(suite),
            None => s.append("unstable"),
        }
        assert(s@ =~= source_text(self@));
        s
    }

    /// The first architecture that a command cannot take.
    fn check_architectures(&self, all_too: bool) -> (r: Option<WBArchitecture>)
        ensures
            r == first_bad_architecture(self@.architectures, all_too),
    {
        let mut i: usize = 0;
        assert(self@.architectures.subrange(0, self@.architectures.len() as int) =~= self@.architectures);
        while i < self.architectures.len()
            invariant
                i <= self.architectures.len(),
                first_bad_architecture(self@.architectures, all_too) == first_bad_architecture(
                    self@.architectures.subrange(i as int, self@.architectures.len() as int),
                    all_too,
                ),
            decreases self.architectures.len() - i,
        {
            let ghost rest = self@.architectures.subrange(i as int, self@.architectures.len() as int);
            let arch = self.architectures[i];
            assert(rest[0] == arch);
            let bad = match arch {
                WBArchitecture::Architecture(Architecture::Source) => true,
                WBArchitecture::MinusArchitecture(Architecture::Source) => true,
                WBArchitecture::All => all_too,
                _ => false,
            };
            if bad {
                return Some(arch);
            }
            assert(rest.drop_first() =~= self@.architectures.subrange(i + 1, self@.architectures.len() as int));
            i = i + 1;
        }
        None
    }
}

/// Builder to create a `nmu` command
#[derive(Clone, Debug, Eq, PartialEq)]
pub struct BinNMU<'a> {
    source: &'a SourceSpecifier<'a>,
    message: &'a str,
    nmu_version: Option<u32>,
    extra_depends: Option<&'a str>,
    priority: Option<i32>,
    dep_wait: Option<&'a str>,
}

/// The content of a binNMU command.
pub struct BinNMUModel {
    pub source: SourceModel,
    pub message: Seq<char>,
    pub nmu_version: Option<u32>,
    pub extra_depends: Option<Seq<char>>,
    pub priority: Option<i32>,
    pub dep_wait: Option<Seq<char>>,
}

impl<'a> View for BinNMU<'a> {
    type V = BinNMUModel;

    closed spec fn view(&self) -> BinNMUModel {
        BinNMUModel {
            source: self.source@,
            message: self.message@,
            nmu_version: self.nmu_version,
            extra_depends: opt_view(self.extra_depends),
            priority: self.priority,
            dep_wait: opt_view(self.dep_wait),
        }
    }
}

/// The text of a `dw` command.
pub open spec fn dep_wait_text(source: SourceModel, message: Seq<char>) -> Seq<char> {
    "dw "@ + source_text(source) + " . -m \""@ + message + "\""@
}

/// The text of a `bp` command.
pub open spec fn build_priority_text(source: SourceModel, priority: i32) -> Seq<char> {
    "bp "@ + signed_decimal(priority as int) + " "@ + source_text(source)
}

/// The text of a `nmu` command, followed by its `dw` and `bp` commands
/// on lines of their own where they are asked for.
pub open spec fn binnmu_text(m: BinNMUModel) -> Seq<char> {
    "nmu "@ + (match m.nmu_version {
        Some(v) => decimal(v as nat) + " "@,
        None => Seq::empty(),
    }) + source_text(m.source) + " . -m \""@ + m.message + "\""@ + (match m.extra_depends {
        Some(e) => " --extra-depends \""@ + e + "\""@,
        None => Seq::empty(),
    }) + (match m.dep_wait {
        Some(d) => "\n"@ + dep_wait_text(m.source, d),
        None => Seq::empty(),
    }) + (match m.priority {
        Some(p) => "\n"@ + build_priority_text(m.source, p),
        None => Seq::empty(),
    })
}

impl<'a> BinNMU<'a> {
    /// Create a new `nmu` command for the given `source`.
    pub fn new(source: &'a SourceSpecifier<'a>, message: &'a str) -> (r: Result<Self, Error>)
        ensures
            match first_bad_architecture(source@.architectures, true) {
                Some(a) => r matches Err(Error::InvalidArchitecture(b, c)) && a == b && c@ == "nmu"@,
                None => r matches Ok(x) && x@ == (BinNMUModel {
                    source: source@,
                    message: message@,
                    nmu_version: None,
                    extra_depends: None,
                    priority: None,
                    dep_wait: None,
                }),
            },
    {
        match source.check_architectures(true) {
            Some(arch) => Err(Error::InvalidArchitecture(arch, "nmu")),
            None => Ok(Self {
                source,
                message,
                nmu_version: None,
                extra_depends: None,
                priority: None,
                dep_wait: None,
            }),
        }
    }

    /// Specify the binNMU version. If not set, `wb` tries to auto-detect the binNMU version.
    pub fn with_nmu_version(&mut self, version: u32) -> (r: &mut Self)
        ensures
            *final(self) == *final(r),
            (*r)@ == (BinNMUModel { nmu_version: Some(version), ..old(self)@ }),
    {
        self.nmu_version = Some(version);
        self
    }

    /// Specify extra dependencies.
    pub fn with_extra_depends(&mut self, extra_depends: &'a str) -> (r: &mut Self)
        ensures
            *final(self) == *final(r),
            (*r)@ == (BinNMUModel { extra_depends: Some(extra_depends@), ..old(self)@ }),
    {
        self.extra_depends = Some(extra_depends);
        self
    }

    /// Specify build priority. If not set, the build priority will not be changed.
    pub fn with_build_priority(&mut self, priority: i32) -> (r: &mut Self)
        ensures
            *final(self) == *final(r),
            (*r)@ == (BinNMUModel { priority: Some(priority), ..old(self)@ }),
    {
        self.priority = Some(priority);
        self
    }

    /// Specify dependency-wait. If not set, no dependency-wait will be set.
    pub fn with_dependency_wait(&mut self, dw: &'a str) -> (r: &mut Self)
        ensures
            *final(self) == *final(r),
            (*r)@ == (BinNMUModel { dep_wait: Some(dw@), ..old(self)@ }),
    {
        self.dep_wait = Some(dw);
        self
    }

    /// The text of the command.
    pub fn to_string(&self) -> (r: String)
        ensures
            r@ == binnmu_text(self@),
    {
        let mut s = String::from_str("nmu ");
        if let Some(v) = self.nmu_version {
            push_decimal(&mut s, v as u64);
            s.append(" ");
        }
        let src = self.source.to_string();
        s.append(src.as_str());
        s.append(" . -m \"");
        s.append(self.message);
        s.append("\"");
        if let Some(e) = self.extra_depends {
            s.append(" --extra-depends \"");
            s.append(e);
            s.append("\"");
        }
        if let Some(d) = self.dep_wait {
            s.append("\n");
            let t = dep_wait_string(&src, d);
            s.append(t.as_str());
        }
        if let Some(p) = self.priority {
            s.append("\n");
            let t = build_priority_string(&src, p);
            s.append(t.as_str());
        }
        assert(s@ =~= binnmu_text(self@));
        s
    }
}

impl<'a> WBCommandBuilder for BinNMU<'a> {
    fn build(&self) -> (r: WBCommand)
        ensures
            r@ == binnmu_text(self@),
    {
        WBCommand(self.to_string())
    }
}

/// The text of a `dw` command for a source text.
fn dep_wait_string(src: &String, message: &str) -> (r: String)
    ensures
        r@ == "dw "@ + src@ + " . -m \""@ + message@ + "\""@,
{
    let mut s = String::from_str("dw ");
    s.append(src.as_str());
    s.append(" . -m \"");
    s.append(message);
    s.append("\"");
    s
}

/// The text of a `bp` command for a source text.
fn build_priority_string(src: &String, priority: i32) -> (r: String)
    ensures
        r@ == "bp "@ + signed_decimal(priority as int) + " "@ + src@,
{
    let mut s = String::from_str("bp ");
    push_signed_decimal(&mut s, priority);
    s.append(" ");
    s.append(src.as_str());
    s
}

/// Builder for the `dw` command
#[derive(Clone, Debug, Eq, PartialEq)]
pub struct DepWait<'a> {
    source: &'a SourceSpecifier<'a>,
    message: &'a str,
}

impl<'a> DepWait<'a> {
    /// Create a new `dw` command for the given `source`.
    pub fn new(source: &'a SourceSpecifier<'a>, message: &'a str) -> (r: Result<Self, Error>)
        ensures
            match first_bad_architecture(source@.architectures, false) {
                Some(a) => r matches Err(Error::InvalidArchitecture(b, c)) && a == b && c@ == "dw"@,
                None => r matches Ok(x) && x.text() == dep_wait_text(source@, message@),
            },
    {
        match source.check_architectures(false) {
            Some(arch) => Err(Error::InvalidArchitecture(arch, "dw")),
            None => Ok(Self { source, message }),
        }
    }

    /// The text of the command.
    pub closed spec fn text(&self) -> Seq<char> {
        dep_wait_text(self.source@, self.message@)
    }

    /// The text of the command.
    pub fn to_string(&self) -> (r: String)
        ensures
            r@ == self.text(),
    {
        let src = self.source.to_string();
        dep_wait_string(&src, self.message)
    }
}

impl<'a> WBCommandBuilder for DepWait<'a> {
    fn build(&self) -> (r: WBCommand)
        ensures
            r@ == self.text(),
    {
        WBCommand(self.to_string())
    }
}

/// Builder for the `bp` command
#[derive(Clone, Debug, Eq, PartialEq)]
pub struct BuildPriority<'a> {
    source: &'a SourceSpecifier<'a>,
    priority: i32,
}

impl<'a> BuildPriority<'a> {
    /// Create a new `bp` command for the given `source`.
    pub fn new(source: &'a SourceSpecifier<'a>, priority: i32) -> (r: Result<Self, Error>)
        ensures
            match first_bad_architecture(source@.architectures, false) {
                Some(a) => r matches Err(Error::InvalidArchitecture(b, c)) && a == b && c@ == "bp"@,
                None => r matches Ok(x) && x.text() == build_priority_text(source@, priority),
            },
    {
        match source.check_architectures(false) {
            Some(arch) => Err(Error::InvalidArchitecture(arch, "bp")),
            None => Ok(Self { source, priority }),
        }
    }

    /// The text of the command.
    pub closed spec fn text(&self) -> Seq<char> {
        build_priority_text(self.source@, self.priority)
    }

    /// The text of the command.
    pub fn to_string(&self) -> (r: String)
        ensures
            r@ == self.text(),
    {
        let src = self.source.to_string();
        build_priority_string(&src, self.priority)
    }
}

impl<'a> WBCommandBuilder for BuildPriority<'a> {
    fn build(&self) -> (r: WBCommand)
        ensures
            r@ == self.text(),
    {
        WBCommand(self.to_string())
    }
}

} // verus!
