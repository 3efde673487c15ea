//! The options of the commands, and the binNMU that common options ask for.

use vstd::prelude::*;

use crate::archive::{Suite, SuiteOrCodename};
use crate::config::CacheEntries;
use crate::nmu_eso::{expand_suite_for_binaries, expand_suite_for_sources, suites_for_binaries, suites_for_sources};
use crate::package::{package_relationship_text, PackageRelationship, RelationshipModel};
use crate::strings::{join, join_strings, views};
use crate::text::str_eq;
use crate::wb::{
    binnmu_text, first_bad_architecture, BinNMU, BinNMUModel, Error, SourceSpecifier, WBArchitecture,
    WBCommand, WBCommandBuilder,
};

verus! {

/// Options of the commands that schedule binNMUs.
#[derive(Debug)]
pub struct BinNMUsOptions {
    /// Message for binNMUs
    pub message: String,
    /// Build priority
    pub build_priority: Option<i32>,
    /// Dependency-wait
    pub dep_wait: Option<Vec<PackageRelationship>>,
    /// Extra dependencies
    pub extra_depends: Option<Vec<PackageRelationship>>,
    /// Suite for binNMUs.
    pub suite: SuiteOrCodename,
    /// Architectures for binNMUs
    pub architecture: Option<Vec<WBArchitecture>>,
}

/// Options of `grep-excuses`.
#[derive(Debug)]
pub struct GrepExcusesOptions {
    /// Currently not implemented
    pub autopkgtests: bool,
    /// The maintainer or package to grep for
    pub maintainer_package: Vec<String>,
}

/// Options of `nmu-buildinfo`.
#[derive(Debug)]
pub struct BinNMUBuildinfoOptions {
    pub binnmu_options: BinNMUsOptions,
    /// Input files
    pub inputs: Vec<String>,
}

/// Options of `process-excuses`.
#[derive(Clone, Copy, Debug, PartialEq, Eq, Structural)]
pub struct ProcessExcusesOptions {
    /// Ignore age of packages
    pub ignore_age: bool,
    /// Ignore results from autopkgtests
    pub ignore_autopkgtests: bool,
}

/// The field of a binary package that names the sources it was built with.
#[derive(Clone, Copy, Debug, Eq, PartialEq, Structural)]
pub enum Field {
    BuiltUsing,
    StaticBuiltUsing,
    XCargoBuiltUsing,
}

/// The name of a field.
pub open spec fn field_name(f: Field) -> Seq<char> {
    match f {
        Field::BuiltUsing => "Built-Using"@,
        Field::StaticBuiltUsing => "Static-Built-Using"@,
        Field::XCargoBuiltUsing => "X-Cargo-Built-Using"@,
    }
}

/// The field that a name names, if any.
pub open spec fn parse_field(s: Seq<char>) -> Option<Field> {
    if s == "Built-Using"@ {
        Some(Field::BuiltUsing)
    } else if s == "Static-Built-Using"@ {
        Some(Field::StaticBuiltUsing)
    } else if s == "X-Cargo-Built-Using"@ {
        Some(Field::XCargoBuiltUsing)
    } else {
        None
    }
}

/// The name is not the name of a field.
#[derive(Clone, Copy, Debug, PartialEq, Eq, Structural)]
pub struct ParseError;

impl Field {
    /// The name of the field.
    pub fn as_str(&self) -> (r: &'static str)
        ensures
            r@ == field_name(*self),
    {
        match self {
            Self::BuiltUsing => "Built-Using",
            Self::StaticBuiltUsing => "Static-Built-Using",
            Self::XCargoBuiltUsing => "X-Cargo-Built-Using",
        }
    }

    /// Parses the name of a field.
    pub fn try_from(s: &str) -> (r: Result<Self, ParseError>)
        ensures
            r == (match parse_field(s@) {
                Some(f) => Ok(f),
                None => Err(ParseError),
            }),
    {
        if str_eq(s, "Built-Using") {
            Ok(Self::BuiltUsing)
        } else if str_eq(s, "Static-Built-Using") {
            Ok(Self::StaticBuiltUsing)
        } else if str_eq(s, "X-Cargo-Built-Using") {
            Ok(Self::XCargoBuiltUsing)
        } else {
            Err(ParseError)
        }
    }
}

impl std::str::FromStr for Field {
    type Err = ParseError;

    fn from_str(s: &str) -> (r: Result<Self, Self::Err>)
        ensures
            r == (match parse_field(s@) {
                Some(x) => Ok(x),
                None => Err(ParseError),
            }),
    {
        Self::try_from(s)
    }
}

/// Parsing the name of a field gives the field back.
pub proof fn lemma_field_name_parse(f: Field)
    ensures
        parse_field(field_name(f)) == Some(f),
{
    reveal_strlit("Built-Using");
    reveal_strlit("Static-Built-Using");
    reveal_strlit("X-Cargo-Built-Using");
    match f {
        Field::BuiltUsing => {},
        Field::StaticBuiltUsing => {
            assert("Static-Built-Using"@.len() != "Built-Using"@.len());
        },
        Field::XCargoBuiltUsing => {
            assert("X-Cargo-Built-Using"@.len() != "Built-Using"@.len());
            assert("X-Cargo-Built-Using"@.len() != "Static-Built-Using"@.len());
        },
    }
}

/// Options of `nmu-eso`.
#[derive(Debug)]
pub struct NMUOutdatedBuiltUsingOptions {
    /// Build priority
    pub build_priority: i32,
    /// Suite for binNMUs
    pub suite: SuiteOrCodename,
    /// Select the binary package field to check for outdated information
    pub field: Vec<Field>,
}

/// Options of `nmu-version-skew`.
#[derive(Debug)]
pub struct NMUVersionSkewOptions {
    /// Build priority
    pub build_priority: i32,
    /// Suite for binNMUs.
    pub suite: SuiteOrCodename,
}

/// Options of `nmu-list` and `nmu-transition`.
#[derive(Debug)]
pub struct NMUListOptions {
    pub binnmu_options: BinNMUsOptions,
    /// Input file with a list of packages
    pub input: Option<String>,
}

/// The commands of the tools.
#[derive(Debug)]
pub enum DrtToolsCommands {
    /// Process current excuses.yaml and prepare a list of binNMUs required for
    /// testing migration and list of unblocks
    ProcessExcuses(ProcessExcusesOptions),
    /// Prepare and schedule binNMUs for a transition.
    NMUTransition(NMUListOptions),
    /// Prepare binNMUs based on a list of buildinfo files
    NMUBuildinfo(BinNMUBuildinfoOptions),
    /// Grep excuses for a list of packages and/or maintainers
    GrepExcuses(GrepExcusesOptions),
    /// Prepare binNMUs to rebuild for outdated Built-Using
    NMUOutdatedBuiltUsing(NMUOutdatedBuiltUsingOptions),
    /// Prepare rebuilds for version skew in Multi-Arch: same packages
    NMUVersionSkew(NMUVersionSkewOptions),
    /// BinNMU a list of packages
    NMUList(NMUListOptions),
}

/// The cache entries that a command needs fresh: where none of them
/// changed, there is nothing to do.
pub open spec fn required_entries(c: DrtToolsCommands) -> Seq<CacheEntries> {
    match c {
        DrtToolsCommands::ProcessExcuses(_) => seq![CacheEntries::Excuses],
        DrtToolsCommands::NMUOutdatedBuiltUsing(o) => suites_for_binaries(o.suite).map_values(
            |s: SuiteOrCodename| CacheEntries::Packages(s),
        ) + suites_for_sources(o.suite).map_values(|s: SuiteOrCodename| CacheEntries::Sources(s)),
        DrtToolsCommands::NMUVersionSkew(o) => seq![CacheEntries::Packages(o.suite)],
        _ => Seq::empty(),
    }
}

/// The other cache entries that a command needs.
pub open spec fn other_entries(c: DrtToolsCommands) -> Seq<CacheEntries> {
    match c {
        DrtToolsCommands::ProcessExcuses(_) => seq![CacheEntries::Packages(SuiteOrCodename::Suite(Suite::Unstable))],
        DrtToolsCommands::NMUTransition(o) => seq![CacheEntries::FTBFSBugs(o.binnmu_options.suite)],
        DrtToolsCommands::NMUBuildinfo(o) => seq![
            CacheEntries::Packages(o.binnmu_options.suite),
            CacheEntries::FTBFSBugs(o.binnmu_options.suite),
        ],
        DrtToolsCommands::GrepExcuses(_) => seq![CacheEntries::Excuses, CacheEntries::AutoRemovals],
        DrtToolsCommands::NMUOutdatedBuiltUsing(o) => seq![CacheEntries::FTBFSBugs(o.suite)],
        DrtToolsCommands::NMUVersionSkew(o) => seq![CacheEntries::FTBFSBugs(o.suite)],
        DrtToolsCommands::NMUList(o) => seq![CacheEntries::FTBFSBugs(o.binnmu_options.suite)],
    }
}

impl DrtToolsCommands {
    /// Cache entries that need to be downloaded and in fresh state.
    pub fn required_downloads(&self) -> (r: Vec<CacheEntries>)
        ensures
            r@ == required_entries(*self),
    {
        let mut v: Vec<CacheEntries> = Vec::new();
        match self {
            DrtToolsCommands::ProcessExcuses(_) => {
                v.push(CacheEntries::Excuses);
            },
            DrtToolsCommands::NMUOutdatedBuiltUsing(o) => {
                let binaries = expand_suite_for_binaries(o.suite);
                let sources = expand_suite_for_sources(o.suite);
                let mut i: usize = 0;
                while i < binaries.len()
                    invariant
                        i <= binaries.len(),
                        binaries@ == suites_for_binaries(o.suite),
                        v@ == binaries@.subrange(0, i as int).map_values(
                            |s: SuiteOrCodename| CacheEntries::Packages(s),
                        ),
                    decreases binaries.len() - i,
                {
                    v.push(CacheEntries::Packages(binaries[i]));
                    assert(binaries@.subrange(0, i + 1).map_values(|s: SuiteOrCodename| CacheEntries::Packages(s))
                        =~= binaries@.subrange(0, i as int).map_values(
                        |s: SuiteOrCodename| CacheEntries::Packages(s),
                    ).push(CacheEntries::Packages(binaries@[i as int])));
                    i = i + 1;
                }
                assert(binaries@.subrange(0, binaries.len() as int) =~= binaries@);
                let ghost first = v@;
                let mut j: usize = 0;
                while j < sources.len()
                    invariant
                        j <= sources.len(),
                        sources@ == suites_for_sources(o.suite),
                        v@ == first + sources@.subrange(0, j as int).map_values(
                            |s: SuiteOrCodename| CacheEntries::Sources(s),
                        ),
                    decreases sources.len() - j,
                {
                    v.push(CacheEntries::Sources(sources[j]));
                    assert(sources@.subrange(0, j + 1).map_values(|s: SuiteOrCodename| CacheEntries::Sources(s))
                        =~= sources@.subrange(0, j as int).map_values(
                        |s: SuiteOrCodename| CacheEntries::Sources(s),
                    ).push(CacheEntries::Sources(sources@[j as int])));
                    j = j + 1;
                }
                assert(sources@.subrange(0, sources.len() as int) =~= sources@);
            },
            DrtToolsCommands::NMUVersionSkew(o) => {
                v.push(CacheEntries::Packages(o.suite));
            },
            _ => {},
        }
        assert(v@ =~= required_entries(*self));
        v
    }

    /// Cache entries that need to be downloaded
    pub fn downloads(&self) -> (r: Vec<CacheEntries>)
        ensures
            r@ == other_entries(*self),
    {
        let mut v: Vec<CacheEntries> = Vec::new();
        match self {
            DrtToolsCommands::ProcessExcuses(_) => {
                v.push(CacheEntries::Packages(SuiteOrCodename::Suite(Suite::Unstable)));
            },
            DrtToolsCommands::NMUTransition(o) => {
                v.push(CacheEntries::FTBFSBugs(o.binnmu_options.suite));
            },
            DrtToolsCommands::NMUBuildinfo(o) => {
                v.push(CacheEntries::Packages(o.binnmu_options.suite));
                v.push(CacheEntries::FTBFSBugs(o.binnmu_options.suite));
            },
            DrtToolsCommands::GrepExcuses(_) => {
                v.push(CacheEntries::Excuses);
                v.push(CacheEntries::AutoRemovals);
            },
            DrtToolsCommands::NMUOutdatedBuiltUsing(o) => {
                v.push(CacheEntries::FTBFSBugs(o.suite));
            },
            DrtToolsCommands::NMUVersionSkew(o) => {
                v.push(CacheEntries::FTBFSBugs(o.suite));
            },
            DrtToolsCommands::NMUList(o) => {
                v.push(CacheEntries::FTBFSBugs(o.binnmu_options.suite));
            },
        }
        assert(v@ =~= other_entries(*self));
        v
    }
}

/// The views of a list of relationships.
pub open spec fn relationships_view(v: Seq<PackageRelationship>) -> Seq<RelationshipModel> {
    v.map_values(|r: PackageRelationship| r@)
}

/// Relationships as text, separated by `, `.
pub open spec fn relationships_text(v: Seq<RelationshipModel>) -> Seq<char> {
    join(v.map_values(|r: RelationshipModel| package_relationship_text(r)), ", "@)
}

/// Relationships as text, separated by `, `.
pub fn relationships_string(v: &Vec<PackageRelationship>) -> (r: String)
    ensures
        r@ == relationships_text(relationships_view(v@)),
{
    let mut texts: Vec<String> = Vec::new();
    let mut i: usize = 0;
    while i < v.len()
        invariant
            i <= v.len(),
            views(texts@) == relationships_view(v@).subrange(0, i as int).map_values(
                |r: RelationshipModel| package_relationship_text(r),
            ),
        decreases v.len() - i,
    {
        let t = v[i].to_string();
        let ghost before = texts@;
        texts.push(t);
        assert(views(texts@) =~= views(before).push(t@));
        assert(relationships_view(v@).subrange(0, i + 1).map_values(
            |r: RelationshipModel| package_relationship_text(r),
        ) =~= relationships_view(v@).subrange(0, i as int).map_values(
            |r: RelationshipModel| package_relationship_text(r),
        ).push(package_relationship_text(v@[i as int]@)));
        i = i + 1;
    }
    assert(relationships_view(v@).subrange(0, v.len() as int) =~= relationships_view(v@));
    join_strings(&texts, ", ")
}

/// The optional text of optional relationships.
pub open spec fn opt_relationships_text(v: Option<Vec<PackageRelationship>>) -> Option<Seq<char>> {
    match v {
        Some(x) => Some(relationships_text(relationships_view(x@))),
        None => None,
    }
}

/// The binNMU that the common options ask for.
pub open spec fn options_binnmu(source: crate::wb::SourceModel, options: BinNMUsOptions) -> BinNMUModel {
    BinNMUModel {
        source,
        message: options.message@,
        nmu_version: None,
        extra_depends: opt_relationships_text(options.extra_depends),
        priority: options.build_priority,
        dep_wait: opt_relationships_text(options.dep_wait),
    }
}

/// The `wb` command of a binNMU of `source` with the message, build
/// priority, dependency-wait and extra dependencies of the options.
pub fn binnmu_with_options(source: &SourceSpecifier, options: &BinNMUsOptions) -> (r: Result<WBCommand, Error>)
    ensures
        match first_bad_architecture(source@.architectures, true) {
            Some(a) => r matches Err(Error::InvalidArchitecture(b, c)) && a == b && c@ == "nmu"@,
            None => r matches Ok(c) && c@ == binnmu_text(options_binnmu(source@, *options)),
        },
{
    let dw = match &options.dep_wait {
        Some(d) => Some(relationships_string(d)),
        None => None,
    };
    let ed = match &options.extra_depends {
        Some(d) => Some(relationships_string(d)),
        None => None,
    };
    let mut binnmu = match BinNMU::new(source, options.message.as_str()) {
        Ok(b) => b,
        Err(e) => return Err(e),
    };
    if let Some(bp) = options.build_priority {
        binnmu.with_build_priority(bp);
    }
    if let Some(d) = &dw {
        binnmu.with_dependency_wait(d.as_str());
    }
    if let Some(e) = &ed {
        binnmu.with_extra_depends(e.as_str());
    }
    let r = binnmu.build();
    assert(binnmu@ == options_binnmu(source@, *options));
    Ok(r)
}

} // verus!
