//! Rebuilds for a transition, from the lines that the transition tracker
//! lists: `package [build logs] (version) ...`, or with `(sid only)`
//! after the package.

use vstd::prelude::*;

use crate::archive::suite_or_codename_text;
use crate::cli::{binnmu_with_options, options_binnmu, BinNMUsOptions};
use crate::strings::{contains, has_infix, split_words, starts_with, words};
use crate::text::{chars_of, has_prefix, string_of};
use crate::udd_bugs::{bugs_listing, UDDBugs};
use crate::version::{parse_version, version_text, PackageVersion};
use crate::wb::{binnmu_text, first_bad_architecture, Error, SourceModel, SourceSpecifier, WBCommand};

verus! {

/// What a line of the transition leads to.
#[derive(Debug)]
pub enum TransitionOutcome {
    /// A heading or an empty line
    Ignored,
    /// A line of another format
    Unsupported,
    /// The version cannot be read
    InvalidVersion,
    /// The source has bugs that make it fail to build
    FailsToBuild(String),
    /// The rebuild
    Command(WBCommand),
}

/// The position of the version among the words of a line.
pub open spec fn version_index(line: Seq<char>) -> int {
    if has_infix(line, "(sid only)"@) {
        5
    } else {
        3
    }
}

/// The text in parentheses, if the word is in parentheses.
pub open spec fn parenthesized(w: Seq<char>) -> Option<Seq<char>> {
    if w.len() >= 2 && w[0] == '(' && w.last() == ')' {
        Some(w.subrange(1, w.len() - 1))
    } else {
        None
    }
}

/// The rebuild that a line of the transition asks for.
pub open spec fn transition_spec(line: Seq<char>, options: BinNMUsOptions) -> SourceModel {
    let ws = words(line, false);
    SourceModel {
        source: ws[0],
        version: Some(version_text(parse_version(parenthesized(ws[version_index(line)])->0)->Ok_0)),
        architectures: match options.architecture {
            Some(a) => a@,
            None => Seq::empty(),
        },
        suite: Some(suite_or_codename_text(options.suite)),
    }
}

/// The rebuild of the source on a line of the transition.
pub fn transition_line(line: &str, options: &BinNMUsOptions, ftbfs_bugs: &UDDBugs) -> (r: Result<TransitionOutcome, Error>)
    ensures
        ({
            let ws = words(line@, false);
            let k = version_index(line@);
            if has_prefix(line@, "Dependency level"@) || line@.len() == 0 {
                r matches Ok(TransitionOutcome::Ignored)
            } else if ws.len() <= k {
                r matches Ok(TransitionOutcome::Unsupported)
            } else if parenthesized(ws[k]) is None {
                r matches Ok(TransitionOutcome::InvalidVersion)
            } else if bugs_listing(ftbfs_bugs@, ws[0]).len() > 0 {
                r matches Ok(TransitionOutcome::FailsToBuild(s)) && s@ == ws[0]
            } else if parse_version(parenthesized(ws[k])->0) is Err {
                r matches Ok(TransitionOutcome::InvalidVersion)
            } else {
                let spec = transition_spec(line@, *options);
                match first_bad_architecture(spec.architectures, true) {
                    Some(a) => r matches Err(Error::InvalidArchitecture(b, c)) && a == b && c@ == "nmu"@,
                    None => r matches Ok(TransitionOutcome::Command(c)) && c@ == binnmu_text(options_binnmu(spec, *options)),
                }
            }
        }),
{
    if starts_with(line, "Dependency level") || line.unicode_len() == 0 {
        return Ok(TransitionOutcome::Ignored);
    }
    // possible formats:
    // package [build logs] (version) ...
    // package (sid only) [build logs] (version) ...
    let k: usize = if contains(line, "(sid only)") { 5 } else { 3 };
    let split = split_words(line, false);
    if split.len() <= k {
        return Ok(TransitionOutcome::Unsupported);
    }
    let source = &split[0];
    let word = chars_of(split[k].as_str());
    if !(word.len() >= 2 && word[0] == '(' && word[word.len() - 1] == ')') {
        return Ok(TransitionOutcome::InvalidVersion);
    }
    let inner = string_of(&word, 1, word.len() - 1);
    if ftbfs_bugs.bugs_for_source(source.as_str()).is_some() {
        return Ok(TransitionOutcome::FailsToBuild(source.clone()));
    }
    let version = match PackageVersion::try_from(inner.as_str()) {
        Ok(v) => v,
        Err(_) => return Ok(TransitionOutcome::InvalidVersion),
    };
    let version_string = version.to_string();
    let suite = options.suite.to_string();
    let mut spec = SourceSpecifier::new(source.as_str());
    spec.with_version(version_string.as_str());
    spec.with_suite(suite.as_str());
    if let Some(architectures) = &options.architecture {
        spec.with_architectures(architectures.as_slice());
        assert(spec@.architectures =~= architectures@);
    }
    proof {
        let ws = words(line@, false);
        assert(ws == crate::strings::views(split@));
        assert(ws[0] == split@[0]@);
        assert(ws[k as int] == split@[k as int]@);
        assert(k == version_index(line@));
        assert(inner@ =~= parenthesized(ws[k as int])->0);
        assert(parse_version(inner@) == Ok::<crate::version::VersionModel, crate::error::ParseError>(version@));
    }
    assert(spec@.source == transition_spec(line@, *options).source);
    assert(spec@.version == transition_spec(line@, *options).version);
    assert(spec@.architectures == transition_spec(line@, *options).architectures);
    assert(spec@.suite == transition_spec(line@, *options).suite);
    assert(spec@ == transition_spec(line@, *options));
    match binnmu_with_options(&spec, options) {
        Ok(c) => Ok(TransitionOutcome::Command(c)),
        Err(e) => Err(e),
    }
}

} // verus!
