//! Rebuilds for a list of source packages, each given as `source` or
//! `source_version`.

use vstd::prelude::*;

use crate::archive::{suite_or_codename_text, SuiteOrCodename};
use crate::cli::{binnmu_with_options, options_binnmu, BinNMUsOptions};
use crate::source_packages::SourcePackages;
use crate::strings::{split_words, views, words};
use crate::text::{chars_of, find_char, lemma_first_index, split_once, string_of};
use crate::udd_bugs::{bugs_listing, UDDBugs};
use crate::version::{parse_version, version_text, PackageVersion, VersionModel};
use crate::wb::{binnmu_text, first_bad_architecture, Error, SourceModel, SourceSpecifier, WBCommand};

verus! {

/// What a token of the list leads to.
#[derive(Debug)]
pub enum ListOutcome {
    /// Nothing: the token names no source
    Skipped,
    /// The source has bugs that make it fail to build
    FailsToBuild(String),
    /// The rebuild
    Command(WBCommand),
}

/// The source that a token names.
pub open spec fn token_source(token: Seq<char>) -> Seq<char> {
    match split_once(token, '_') {
        Some(p) => p.0,
        None => token,
    }
}

/// The version that a token asks for: the one after `_` where it parses,
/// else the current version of the source.
pub open spec fn token_version(token: Seq<char>, sources: Map<Seq<char>, (bool, VersionModel)>) -> Option<VersionModel> {
    match split_once(token, '_') {
        Some(p) => match parse_version(p.1) {
            Ok(v) => Some(v),
            Err(_) => None,
        },
        None => if sources.contains_key(token) {
            Some(sources[token].1)
        } else {
            None
        },
    }
}

/// The source specifier of a token: the version if known, the suite of the
/// options, and their architectures unless the source builds a
/// `Multi-Arch: same` package.
pub open spec fn token_spec(token: Seq<char>, options: BinNMUsOptions, sources: Map<Seq<char>, (bool, VersionModel)>) -> SourceModel {
    let name = token_source(token);
    SourceModel {
        source: name,
        version: match token_version(token, sources) {
            Some(v) => Some(version_text(v)),
            None => None,
        },
        architectures: match options.architecture {
            Some(a) => if sources.contains_key(name) && sources[name].0 {
                Seq::empty()
            } else {
                a@
            },
            None => Seq::empty(),
        },
        suite: Some(suite_or_codename_text(options.suite)),
    }
}

/// The rebuild of the source that a token of the list names.
pub fn list_token(token: &str, options: &BinNMUsOptions, sources: &SourcePackages, ftbfs_bugs: &UDDBugs) -> (r: Result<
    ListOutcome,
    Error,
>)
    ensures
        ({
            let name = token_source(token@);
            let spec = token_spec(token@, *options, sources@);
            if name.len() == 0 {
                r matches Ok(ListOutcome::Skipped)
            } else if bugs_listing(ftbfs_bugs@, name).len() > 0 {
                r matches Ok(ListOutcome::FailsToBuild(s)) && s@ == name
            } else {
                match first_bad_architecture(spec.architectures, true) {
                    Some(a) => r matches Err(Error::InvalidArchitecture(b, c)) && a == b && c@ == "nmu"@,
                    None => r matches Ok(ListOutcome::Command(c)) && c@ == binnmu_text(options_binnmu(spec, *options)),
                }
            }
        }),
{
    let v = chars_of(token);
    let i = find_char(&v, '_');
    proof {
        lemma_first_index(v@, '_');
    }
    let (source, version): (String, Option<PackageVersion>) = if i < v.len() {
        let s = string_of(&v, 0, i);
        let t = string_of(&v, i + 1, v.len());
        assert(t@ == (split_once(token@, '_')->0).1);
        let ver = match PackageVersion::try_from(t.as_str()) {
            Ok(x) => Some(x),
            Err(_) => None,
        };
        (s, ver)
    } else {
        let s = string_of(&v, 0, v.len());
        assert(s@ =~= token@);
        let ver = match sources.version(token) {
            Some(x) => Some(x.duplicate()),
            None => None,
        };
        (s, ver)
    };
    assert(source@ == token_source(token@));
    if source.as_str().unicode_len() == 0 {
        return Ok(ListOutcome::Skipped);
    }
    if ftbfs_bugs.bugs_for_source(source.as_str()).is_some() {
        return Ok(ListOutcome::FailsToBuild(source));
    }
    let version_text_s = match &version {
        Some(x) => Some(x.to_string()),
        None => None,
    };
    let suite = options.suite.to_string();
    let mut spec = SourceSpecifier::new(source.as_str());
    if let Some(t) = &version_text_s {
        spec.with_version(t.as_str());
    }
    spec.with_suite(suite.as_str());
    if let Some(architectures) = &options.architecture {
        if !sources.is_ma_same(source.as_str()) {
            spec.with_architectures(architectures.as_slice());
            assert(spec@.architectures =~= architectures@);
        }
    }
    assert(match version {
        Some(x) => token_version(token@, sources@) == Some(x@),
        None => token_version(token@, sources@) is None,
    });
    assert(spec@.version == token_spec(token@, *options, sources@).version);
    assert(spec@.architectures == token_spec(token@, *options, sources@).architectures);
    assert(spec@ == token_spec(token@, *options, sources@));
    match binnmu_with_options(&spec, options) {
        Ok(c) => Ok(ListOutcome::Command(c)),
        Err(e) => Err(e),
    }
}

/// The outcome of a token as text: the rebuild, a source that fails to
/// build, or nothing.
pub enum TokenModel {
    Skipped,
    FailsToBuild(Seq<char>),
    Command(Seq<char>),
}

/// What the tokens of a list lead to, up to the first error: the rebuilds
/// and the sources skipped because they fail to build, in order.
pub open spec fn list_outcomes(
    tokens: Seq<Seq<char>>,
    options: BinNMUsOptions,
    sources: Map<Seq<char>, (bool, VersionModel)>,
    bugs: Seq<crate::udd_bugs::UDDBug>,
) -> Result<(Seq<Seq<char>>, Seq<Seq<char>>), crate::wb::WBArchitecture>
    decreases tokens.len(),
{
    if tokens.len() == 0 {
        Ok((Seq::empty(), Seq::empty()))
    } else {
        match list_outcomes(tokens.drop_last(), options, sources, bugs) {
            Err(a) => Err(a),
            Ok((cs, fs)) => {
                let t = tokens.last();
                let name = token_source(t);
                let spec = token_spec(t, options, sources);
                if name.len() == 0 {
                    Ok((cs, fs))
                } else if bugs_listing(bugs, name).len() > 0 {
                    Ok((cs, fs.push(name)))
                } else {
                    match first_bad_architecture(spec.architectures, true) {
                        Some(a) => Err(a),
                        None => Ok((cs.push(binnmu_text(options_binnmu(spec, options))), fs)),
                    }
                }
            },
        }
    }
}

/// The rebuilds of the sources that a list names, separated by whitespace;
/// and the sources skipped because they fail to build. An error where an
/// architecture of the options cannot be rebuilt.
pub fn list_commands(input: &str, options: &BinNMUsOptions, sources: &SourcePackages, ftbfs_bugs: &UDDBugs) -> (r: Result<
    (Vec<WBCommand>, Vec<String>),
    Error,
>)
    ensures
        match list_outcomes(words(input@, false), *options, sources@, ftbfs_bugs@) {
            Ok((cs, fs)) => r matches Ok((c, f)) && c@.map_values(|w: WBCommand| w@) == cs && views(f@) == fs,
            Err(a) => r matches Err(Error::InvalidArchitecture(b, c)) && a == b && c@ == "nmu"@,
        },
{
    let tokens = split_words(input, false);
    let ghost all = words(input@, false);
    let mut commands: Vec<WBCommand> = Vec::new();
    let mut skipped: Vec<String> = Vec::new();
    let mut i: usize = 0;
    assert(all.subrange(0, 0) =~= Seq::<Seq<char>>::empty());
    assert(commands@.map_values(|w: WBCommand| w@) =~= Seq::<Seq<char>>::empty());
    assert(views(skipped@) =~= Seq::<Seq<char>>::empty());
    while i < tokens.len()
        invariant
            i <= tokens.len(),
            views(tokens@) == all,
            all == words(input@, false),
            list_outcomes(all.subrange(0, i as int), *options, sources@, ftbfs_bugs@) == Ok::<
                (Seq<Seq<char>>, Seq<Seq<char>>),
                crate::wb::WBArchitecture,
            >((commands@.map_values(|w: WBCommand| w@), views(skipped@))),
        decreases tokens.len() - i,
    {
        let ghost prefix = all.subrange(0, i + 1);
        assert(prefix.drop_last() =~= all.subrange(0, i as int));
        assert(prefix.last() == tokens@[i as int]@);
        match list_token(tokens[i].as_str(), options, sources, ftbfs_bugs) {
            Ok(ListOutcome::Skipped) => {},
            Ok(ListOutcome::FailsToBuild(s)) => {
                let ghost before = skipped@;
                skipped.push(s);
                assert(views(skipped@) =~= views(before).push(s@));
            },
            Ok(ListOutcome::Command(c)) => {
                let ghost before = commands@;
                commands.push(c);
                assert(commands@.map_values(|w: WBCommand| w@) =~= before.map_values(|w: WBCommand| w@).push(c@));
            },
            Err(e) => {
                proof {
                    lemma_list_outcomes_err(all, i as int + 1, *options, sources@, ftbfs_bugs@);
                }
                return Err(e);
            },
        }
        i = i + 1;
    }
    assert(all.subrange(0, tokens.len() as int) =~= all);
    Ok((commands, skipped))
}

/// An error on a prefix of the tokens is the error on all of them.
proof fn lemma_list_outcomes_err(
    all: Seq<Seq<char>>,
    k: int,
    options: BinNMUsOptions,
    sources: Map<Seq<char>, (bool, VersionModel)>,
    bugs: Seq<crate::udd_bugs::UDDBug>,
)
    requires
        0 <= k <= all.len(),
        list_outcomes(all.subrange(0, k), options, sources, bugs) is Err,
    ensures
        list_outcomes(all, options, sources, bugs) == list_outcomes(all.subrange(0, k), options, sources, bugs),
    decreases all.len() - k,
{
    if k < all.len() {
        let p = all.subrange(0, k + 1);
        assert(p.drop_last() =~= all.subrange(0, k));
        lemma_list_outcomes_err(all, k + 1, options, sources, bugs);
    } else {
        assert(all.subrange(0, k) =~= all);
    }
}

} // verus!
