//! Rebuilds for the lines of a list of source packages with versions, as a
//! pattern picks them from each line: the source package first, its version
//! later on the line, possibly in parentheses.

use vstd::prelude::*;

use crate::archive::suite_or_codename_text;
use crate::cli::{binnmu_with_options, options_binnmu, BinNMUsOptions};
use crate::strings::starts_with;
use crate::text::has_prefix;
use crate::udd_bugs::{bugs_listing, UDDBug, UDDBugs};
use crate::version::{parse_version, version_text, PackageVersion, VersionModel};
use crate::wb::{binnmu_text, first_bad_architecture, Error, SourceModel, SourceSpecifier, WBArchitecture, WBCommand};

verus! {

/// The texts of the first and second capture group of the first match of
/// the regular expression `pattern` in `line`; `None` where `pattern` is not
/// a valid regular expression, where it does not match, or where one of the
/// two groups takes no part in the match.
pub uninterp spec fn regex_captures(pattern: Seq<char>, line: Seq<char>) -> Option<(Seq<char>, Seq<char>)>;

/// `regex::Regex::new` on `pattern`, then `Regex::captures` on `line`: the
/// texts of the first two groups of the first match. The contract names the
/// result and says nothing more of it.
#[verifier::external_body]
fn captures(pattern: &str, line: &str) -> (r: Option<(String, String)>)
    ensures
        match regex_captures(pattern@, line@) {
            Some((p, v)) => r matches Some((q, w)) && q@ == p && w@ == v,
            None => r is None,
        },
{
    let matcher = regex::Regex::new(pattern).ok()?;
    let found = matcher.captures(line)?;
    Some((found.get(1)?.as_str().to_string(), found.get(2)?.as_str().to_string()))
}

/// The pattern of a list line: the source package, then after a blank its
/// version, possibly in parentheses.
pub open spec fn list_line_pattern() -> Seq<char> {
    "([a-z0-9+.-]+)[ \t].* \\(?([0-9][^() \t]*)\\)?"@
}

/// What a line of the list leads to.
#[derive(Debug)]
pub enum PrepareOutcome {
    /// A heading, or a line the pattern does not match
    Ignored,
    /// The source has bugs that make it fail to build
    FailsToBuild(String),
    /// The rebuild
    Command(WBCommand),
}

/// Why a line of the list stops the preparation.
#[derive(Debug)]
pub enum PrepareError {
    /// The version cannot be read
    InvalidVersion,
    /// `wb` cannot take the command
    Command(Error),
}

/// What a line leads to, as text.
pub enum PrepareModel {
    Ignored,
    FailsToBuild(Seq<char>),
    Command(Seq<char>),
    InvalidVersion,
    InvalidArchitecture(WBArchitecture),
    ExecutionError,
}

/// The view of the outcome of a line.
pub open spec fn prepare_view(r: Result<PrepareOutcome, PrepareError>) -> PrepareModel {
    match r {
        Ok(PrepareOutcome::Ignored) => PrepareModel::Ignored,
        Ok(PrepareOutcome::FailsToBuild(s)) => PrepareModel::FailsToBuild(s@),
        Ok(PrepareOutcome::Command(c)) => PrepareModel::Command(c@),
        Err(PrepareError::InvalidVersion) => PrepareModel::InvalidVersion,
        Err(PrepareError::Command(Error::InvalidArchitecture(a, _))) => PrepareModel::InvalidArchitecture(a),
        Err(PrepareError::Command(Error::ExecutionError)) => PrepareModel::ExecutionError,
    }
}

/// The source specifier of the rebuild of a source at a version.
pub open spec fn prepare_spec(package: Seq<char>, version: VersionModel, options: BinNMUsOptions) -> SourceModel {
    SourceModel {
        source: package,
        version: Some(version_text(version)),
        architectures: match options.architecture {
            Some(a) => a@,
            None => Seq::empty(),
        },
        suite: Some(suite_or_codename_text(options.suite)),
    }
}

/// What the source and version picked from a line lead to: a source that
/// fails to build is skipped; else the version must parse, and the rebuild
/// is the one that the options ask for.
pub open spec fn prepared(
    package: Seq<char>,
    version: Seq<char>,
    options: BinNMUsOptions,
    bugs: Seq<UDDBug>,
) -> PrepareModel {
    if bugs_listing(bugs, package).len() > 0 {
        PrepareModel::FailsToBuild(package)
    } else {
        match parse_version(version) {
            Err(_) => PrepareModel::InvalidVersion,
            Ok(v) => {
                let spec = prepare_spec(package, v, options);
                match first_bad_architecture(spec.architectures, true) {
                    Some(a) => PrepareModel::InvalidArchitecture(a),
                    None => PrepareModel::Command(binnmu_text(options_binnmu(spec, options))),
                }
            },
        }
    }
}

/// The rebuild of a source package at a version that a line of the list
/// names.
pub fn prepare_binnmu(package: &str, version: &str, options: &BinNMUsOptions, ftbfs_bugs: &UDDBugs) -> (r: Result<
    PrepareOutcome,
    PrepareError,
>)
    ensures
        prepare_view(r) == prepared(package@, version@, *options, ftbfs_bugs@),
{
    if ftbfs_bugs.bugs_for_source(package).is_some() {
        return Ok(PrepareOutcome::FailsToBuild(crate::text::string_from(package)));
    }
    let version = match PackageVersion::try_from(version) {
        Ok(v) => v,
        Err(_) => return Err(PrepareError::InvalidVersion),
    };
    let version_string = version.to_string();
    let suite = options.suite.to_string();
    let mut spec = SourceSpecifier::new(package);
    spec.with_version(version_string.as_str());
    spec.with_suite(suite.as_str());
    if let Some(architectures) = &options.architecture {
        spec.with_architectures(architectures.as_slice());
        assert(spec@.architectures =~= architectures@);
    }
    assert(spec@.source == prepare_spec(package@, version@, *options).source);
    assert(spec@.version == prepare_spec(package@, version@, *options).version);
    assert(spec@.architectures == prepare_spec(package@, version@, *options).architectures);
    assert(spec@.suite == prepare_spec(package@, version@, *options).suite);
    assert(spec@ == prepare_spec(package@, version@, *options));
    match binnmu_with_options(&spec, options) {
        Ok(c) => Ok(PrepareOutcome::Command(c)),
        Err(e) => Err(PrepareError::Command(e)),
    }
}

/// What a line of the list leads to: headings and lines that the pattern
/// does not match are ignored; else the source and version it picks.
pub open spec fn prepared_line(line: Seq<char>, options: BinNMUsOptions, bugs: Seq<UDDBug>) -> PrepareModel {
    if has_prefix(line, "Dependency level"@) {
        PrepareModel::Ignored
    } else {
        match regex_captures(list_line_pattern(), line) {
            None => PrepareModel::Ignored,
            Some((p, v)) => prepared(p, v, options, bugs),
        }
    }
}

/// The rebuild that a line of the list asks for.
pub fn prepare_line(line: &str, options: &BinNMUsOptions, ftbfs_bugs: &UDDBugs) -> (r: Result<
    PrepareOutcome,
    PrepareError,
>)
    ensures
        prepare_view(r) == prepared_line(line@, *options, ftbfs_bugs@),
{
    if starts_with(line, "Dependency level") {
        return Ok(PrepareOutcome::Ignored);
    }
    match captures("([a-z0-9+.-]+)[ \t].* \\(?([0-9][^() \t]*)\\)?", line) {
        None => Ok(PrepareOutcome::Ignored),
        Some((package, version)) => prepare_binnmu(package.as_str(), version.as_str(), options, ftbfs_bugs),
    }
}

} // verus!
