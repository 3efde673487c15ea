//! Processing of the excuses: which items need a rebuild on the buildds
//! to migrate to testing, and which need an unblock.

use vstd::prelude::*;

use crate::architectures::{architecture_name, Architecture};
use crate::archive::Component;
use crate::cli::ProcessExcusesOptions;
use crate::excuses::{
    binnmu_arch_text, opt_version, same_opt_version, ExcusesItem, PolicyInfo, Verdict,
};
use crate::architectures::parse_architecture;
use crate::source_packages::SourcePackages;
use crate::strings::{ends_with, views};
use crate::text::has_suffix;
use crate::version::{version_text, VersionModel};
use crate::wb::{
    binnmu_text, first_bad_architecture, BinNMU, BinNMUModel, SourceModel, SourceSpecifier, WBArchitecture,
    WBCommand, WBCommandBuilder,
};

verus! {

/// The views of a list of commands.
pub open spec fn commands_view(v: Seq<WBCommand>) -> Seq<Seq<char>> {
    v.map_values(|c: WBCommand| c@)
}

/// The binNMUs that were scheduled before.
#[derive(Debug)]
pub struct ScheduledBinNMUs {
    pub binnmus: Vec<WBCommand>,
}

impl ScheduledBinNMUs {
    /// The command was scheduled before.
    pub fn contains(&self, command: &WBCommand) -> (r: bool)
        ensures
            r == commands_view(self.binnmus@).contains(command@),
    {
        let mut i: usize = 0;
        while i < self.binnmus.len()
            invariant
                i <= self.binnmus.len(),
                forall|j: int| 0 <= j < i ==> self.binnmus@[j]@ != command@,
            decreases self.binnmus.len() - i,
        {
            if crate::text::str_eq(self.binnmus[i].as_str(), command.as_str()) {
                assert(commands_view(self.binnmus@)[i as int] == command@);
                return true;
            }
            i = i + 1;
        }
        assert forall|j: int| 0 <= j < commands_view(self.binnmus@).len() implies commands_view(self.binnmus@)[j]
            != command@ by {
            assert(commands_view(self.binnmus@)[j] == self.binnmus@[j]@);
        }
        false
    }

    /// Remembers that the command is scheduled.
    pub fn store(&mut self, command: &WBCommand)
        ensures
            commands_view(final(self).binnmus@) == commands_view(old(self).binnmus@).push(command@),
    {
        self.binnmus.push(command.duplicate());
        assert(commands_view(self.binnmus@) =~= commands_view(old(self).binnmus@).push(command@));
    }
}

/// What to do about an excuses item.
#[derive(Debug)]
pub enum Action {
    BinNMU(WBCommand),
    Unblock(String),
}

/// The content of an action.
pub enum ActionModel {
    BinNMU(Seq<char>),
    Unblock(Seq<char>),
}

impl View for Action {
    type V = ActionModel;

    open spec fn view(&self) -> ActionModel {
        match self {
            Action::BinNMU(c) => ActionModel::BinNMU(c@),
            Action::Unblock(u) => ActionModel::Unblock(u@),
        }
    }
}

/// The built-on-buildd policy is settled: it passes, or builds are missing.
pub open spec fn buildd_settled(p: PolicyInfo) -> bool {
    p.builtonbuildd matches Some(b) && (b.verdict == Verdict::Pass || b.verdict
        == Verdict::RejectedCannotDetermineIfPermanent)
}

/// The item is too young for a rebuild: younger than half the required
/// age, and than the required age less a day.
pub open spec fn too_young(current_age: int, age_requirement: int) -> bool {
    current_age < (if age_requirement / 2 < age_requirement - 1 {
        age_requirement / 2
    } else {
        age_requirement - 1
    })
}

/// A rebuild would let the item migrate: the binaries were not all built
/// on buildds, the item is old enough, its autopkgtests pass and so do
/// all other policies (with the options to ignore age and autopkgtests).
pub open spec fn binnmu_required(o: ProcessExcusesOptions, p: PolicyInfo) -> bool {
    &&& !buildd_settled(p)
    &&& !(p.age matches Some(a) && !o.ignore_age && too_young(a.current_age as int, a.age_requirement as int))
    &&& !(p.autopkgtest matches Some(t) && !o.ignore_autopkgtests && t.verdict != Verdict::Pass)
    &&& forall|i: int| 0 <= i < p.extras@.len() ==> (#[trigger] p.extras@[i]).1.verdict == Verdict::Pass
}

/// The architecture was signed by someone other than a buildd.
pub open spec fn maintainer_signed(e: (Architecture, Option<String>)) -> bool {
    e.1 matches Some(s) && !has_suffix(s@, "@buildd.debian.org"@)
}

/// The architectures whose binaries someone other than a buildd signed.
pub open spec fn maintainer_archs(s: Seq<(Architecture, Option<String>)>) -> Seq<Architecture>
    decreases s.len(),
{
    if s.len() == 0 {
        Seq::empty()
    } else if maintainer_signed(s.last()) {
        maintainer_archs(s.drop_last()).push(s.last().0)
    } else {
        maintainer_archs(s.drop_last())
    }
}

/// The message of rebuilds for migration.
pub open spec fn rebuild_message() -> Seq<char> {
    "Rebuild on buildd"@
}

/// The rebuild of an item whose binaries were built elsewhere than on the
/// buildds, on the architectures concerned (on all where a binary is
/// `Multi-Arch: same`).
pub open spec fn binnmu_of(
    o: ProcessExcusesOptions,
    item: ExcusesItem,
    sources: Map<Seq<char>, (bool, VersionModel)>,
) -> Option<Seq<char>> {
    match item.policy_info {
        None => None,
        Some(p) => if !binnmu_required(o, p) {
            None
        } else {
            let archs = maintainer_archs(p.builtonbuildd->0.signed_by@);
            if archs.contains(Architecture::All) || archs.len() == 0 {
                None
            } else {
                let ma_same = sources.contains_key(item.source@) && sources[item.source@].0;
                let src = SourceModel {
                    source: item.source@,
                    version: Some(version_text(item.new_version->0@)),
                    architectures: if ma_same {
                        Seq::empty()
                    } else {
                        archs.map_values(|a: Architecture| WBArchitecture::Architecture(a))
                    },
                    suite: None,
                };
                if first_bad_architecture(src.architectures, true) is Some {
                    None
                } else {
                    Some(
                        binnmu_text(
                            BinNMUModel {
                                source: src,
                                message: rebuild_message(),
                                nmu_version: None,
                                extra_depends: None,
                                priority: None,
                                dep_wait: None,
                            },
                        ),
                    )
                }
            }
        },
    }
}

/// Where a rebuild is looked at, the built-on-buildd policy is there, a new
/// version is there, and the age can be compared.
pub open spec fn binnmu_defined(o: ProcessExcusesOptions, item: ExcusesItem) -> bool {
    item.policy_info matches Some(p) ==> ((binnmu_required(o, p) ==> (p.builtonbuildd is Some
        && item.new_version is Some)))
}

/// The unblock hint of an item: `unblock source[_tpu]/version[/arch]`.
pub open spec fn unblock_of(item: ExcusesItem) -> Option<Seq<char>> {
    match item.new_version {
        None => None,
        Some(v) => {
            let base = "unblock "@ + item.source@ + (if has_suffix(item.item_name@, "_tpu"@) {
                "_tpu"@
            } else {
                Seq::empty()
            }) + "/"@ + version_text(v@);
            if same_opt_version(opt_version(item.new_version), opt_version(item.old_version)) {
                match binnmu_arch_text(item.item_name@) {
                    Some(t) => match parse_architecture(t) {
                        Some(a) => Some(base + "/"@ + architecture_name(a)),
                        None => None,
                    },
                    None => None,
                }
            } else {
                Some(base)
            }
        },
    }
}

/// Items that can be acted on: no removals, no proposed-updates, and not
/// invalidated by another package.
pub open spec fn actionable(item: ExcusesItem) -> bool {
    item.new_version is Some && !has_suffix(item.item_name@, "_pu"@) && item.invalidated_by_other_package
        != Some(true)
}

/// Items that can be rebuilt: not from testing-proposed-updates, in main,
/// and with no missing builds.
pub open spec fn binnmu_actionable(item: ExcusesItem) -> bool {
    !has_suffix(item.item_name@, "_tpu"@) && (item.component is None || item.component == Some(Component::Main))
        && item.missing_builds is None
}

/// Items that can be unblocked: from testing-proposed-updates or binNMUs,
/// that need approval.
pub open spec fn unblock_actionable(item: ExcusesItem) -> bool {
    (has_suffix(item.item_name@, "_tpu"@) || same_opt_version(
        opt_version(item.new_version),
        opt_version(item.old_version),
    )) && item.migration_policy_verdict == Verdict::RejectedNeedsApproval
}

/// The action for an item.
pub open spec fn action_of(
    o: ProcessExcusesOptions,
    item: ExcusesItem,
    sources: Map<Seq<char>, (bool, VersionModel)>,
) -> Option<ActionModel> {
    if !actionable(item) {
        None
    } else if unblock_actionable(item) {
        match unblock_of(item) {
            Some(u) => Some(ActionModel::Unblock(u)),
            None => None,
        }
    } else if binnmu_actionable(item) {
        match binnmu_of(o, item, sources) {
            Some(c) => Some(ActionModel::BinNMU(c)),
            None => None,
        }
    } else {
        None
    }
}

/// The item can be processed without failing.
pub open spec fn action_defined(o: ProcessExcusesOptions, item: ExcusesItem) -> bool {
    actionable(item) && !unblock_actionable(item) && binnmu_actionable(item) ==> binnmu_defined(o, item)
}

/// The unblocks, the new binNMUs and the scheduled binNMUs after processing
/// the items: each unblock and each binNMU once, in the order in which they
/// first come; binNMUs scheduled before are left out, and the new ones are
/// remembered as scheduled unless it is a dry run.
pub open spec fn processed(
    o: ProcessExcusesOptions,
    items: Seq<ExcusesItem>,
    sources: Map<Seq<char>, (bool, VersionModel)>,
    scheduled: Seq<Seq<char>>,
    dry_run: bool,
) -> (Seq<Seq<char>>, Seq<Seq<char>>, Seq<Seq<char>>)
    decreases items.len(),
{
    if items.len() == 0 {
        (Seq::empty(), Seq::empty(), scheduled)
    } else {
        let (u, b, s) = processed(o, items.drop_last(), sources, scheduled, dry_run);
        match action_of(o, items.last(), sources) {
            None => (u, b, s),
            Some(ActionModel::Unblock(t)) => (
                if u.contains(t) {
                    u
                } else {
                    u.push(t)
                },
                b,
                s,
            ),
            Some(ActionModel::BinNMU(c)) => if s.contains(c) {
                (u, b, s)
            } else {
                (
                    u,
                    if b.contains(c) {
                        b
                    } else {
                        b.push(c)
                    },
                    if dry_run {
                        s
                    } else {
                        s.push(c)
                    },
                )
            },
        }
    }
}

/// Whether `t` is among the texts.
fn contains_text(v: &Vec<String>, t: &str) -> (r: bool)
    ensures
        r == views(v@).contains(t@),
{
    let mut i: usize = 0;
    while i < v.len()
        invariant
            i <= v.len(),
            forall|j: int| 0 <= j < i ==> v@[j]@ != t@,
        decreases v.len() - i,
    {
        if crate::text::str_eq(v[i].as_str(), t) {
            assert(views(v@)[i as int] == t@);
            return true;
        }
        i = i + 1;
    }
    assert forall|j: int| 0 <= j < views(v@).len() implies views(v@)[j] != t@ by {
        assert(views(v@)[j] == v@[j]@);
    }
    false
}

/// Whether the command is among the commands.
fn contains_command(v: &Vec<WBCommand>, c: &WBCommand) -> (r: bool)
    ensures
        r == commands_view(v@).contains(c@),
{
    let mut i: usize = 0;
    while i < v.len()
        invariant
            i <= v.len(),
            forall|j: int| 0 <= j < i ==> v@[j]@ != c@,
        decreases v.len() - i,
    {
        if crate::text::str_eq(v[i].as_str(), c.as_str()) {
            assert(commands_view(v@)[i as int] == c@);
            return true;
        }
        i = i + 1;
    }
    assert forall|j: int| 0 <= j < commands_view(v@).len() implies commands_view(v@)[j] != c@ by {
        assert(commands_view(v@)[j] == v@[j]@);
    }
    false
}

/// The excuses processor.
#[derive(Debug)]
pub struct ProcessExcuses {
    pub options: ProcessExcusesOptions,
}

impl ProcessExcuses {
    /// A processor with the given options.
    pub fn new(options: ProcessExcusesOptions) -> (r: Self)
        ensures
            r.options == options,
    {
        Self { options }
    }

    /// The item can be processed: where its rebuild is looked at, the age
    /// can be compared and the rebuild has what it needs.
    pub fn is_action_defined(&self, item: &ExcusesItem) -> (r: bool)
        ensures
            r == action_defined(self.options, *item),
    {
        if !Self::is_actionable(item) {
            return true;
        }
        if Self::is_unblock_actionable(item) {
            return true;
        }
        if !Self::is_binnmu_actionable(item) {
            return true;
        }
        match &item.policy_info {
            None => true,
            Some(p) => {
                if !self.is_binnmu_required(p) {
                    return true;
                }
                p.builtonbuildd.is_some() && item.new_version.is_some()
            },
        }
    }

    /// Whether a rebuild would let the item migrate.
    pub fn is_binnmu_required(&self, policy_info: &PolicyInfo) -> (r: bool)
        ensures
            r == binnmu_required(self.options, *policy_info),
    {
        if let Some(b) = &policy_info.builtonbuildd {
            if b.verdict == Verdict::Pass {
                // nothing to do
                return false;
            }
            if b.verdict == Verdict::RejectedCannotDetermineIfPermanent {
                // missing builds
                return false;
            }
        }
        if let Some(a) = &policy_info.age {
            // a required age of 0 leaves nothing too young
            if !self.options.ignore_age && a.age_requirement > 0 {
                let half = a.age_requirement / 2;
                let less = a.age_requirement - 1;
                let bound = if half < less { half } else { less };
                if a.current_age < bound {
                    // too young
                    return false;
                }
            }
        }
        if let Some(autopkgtests) = &policy_info.autopkgtest {
            if !self.options.ignore_autopkgtests && autopkgtests.verdict != Verdict::Pass {
                return false;
            }
        }
        // if the others do not pass, would not migrate even if binNMUed
        let mut i: usize = 0;
        while i < policy_info.extras.len()
            invariant
                i <= policy_info.extras.len(),
                forall|j: int| 0 <= j < i ==> (#[trigger] policy_info.extras@[j]).1.verdict == Verdict::Pass,
            decreases policy_info.extras.len() - i,
        {
            if policy_info.extras[i].1.verdict != Verdict::Pass {
                return false;
            }
            i = i + 1;
        }
        true
    }

    /// The rebuild of an item whose binaries were not built on buildds.
    pub fn build_binnmu(&self, item: &ExcusesItem, source_packages: &SourcePackages) -> (r: Option<WBCommand>)
        requires
            binnmu_defined(self.options, *item),
        ensures
            match r {
                Some(c) => binnmu_of(self.options, *item, source_packages@) == Some(c@),
                None => binnmu_of(self.options, *item, source_packages@) is None,
            },
    {
        let policy_info = match &item.policy_info {
            Some(p) => p,
            None => return None,
        };
        if !self.is_binnmu_required(policy_info) {
            return None;
        }
        // find architectures with maintainer built binaries
        let signed_by = match &policy_info.builtonbuildd {
            Some(b) => &b.signed_by,
            None => return None,
        };
        let mut archs: Vec<WBArchitecture> = Vec::new();
        let ghost plain: Seq<Architecture> = Seq::empty();
        let mut has_all = false;
        let mut i: usize = 0;
        while i < signed_by.len()
            invariant
                i <= signed_by.len(),
                plain == maintainer_archs(signed_by@.subrange(0, i as int)),
                archs@ == plain.map_values(|a: Architecture| WBArchitecture::Architecture(a)),
                has_all == plain.contains(Architecture::All),
            decreases signed_by.len() - i,
        {
            let ghost prefix = signed_by@.subrange(0, i + 1);
            assert(prefix.drop_last() =~= signed_by@.subrange(0, i as int));
            assert(prefix.last() == signed_by@[i as int]);
            let (arch, signer) = &signed_by[i];
            let by_maintainer = match signer {
                Some(s) => !ends_with(s.as_str(), "@buildd.debian.org"),
                None => false,
            };
            if by_maintainer {
                let ghost before = plain;
                proof {
                    plain = plain.push(*arch);
                }
                archs.push(WBArchitecture::Architecture(*arch));
                assert(archs@ =~= plain.map_values(|a: Architecture| WBArchitecture::Architecture(a)));
                if *arch == Architecture::All {
                    has_all = true;
                    assert(plain[plain.len() - 1] == Architecture::All);
                } else {
                    assert(plain.contains(Architecture::All) == before.contains(Architecture::All)) by {
                        if plain.contains(Architecture::All) {
                            let k = choose|k: int| 0 <= k < plain.len() && plain[k] == Architecture::All;
                            assert(k < before.len());
                            assert(before[k] == plain[k]);
                        }
                        if before.contains(Architecture::All) {
                            let k = choose|k: int| 0 <= k < before.len() && before[k] == Architecture::All;
                            assert(plain[k] == before[k]);
                        }
                    }
                }
            }
            i = i + 1;
        }
        assert(signed_by@.subrange(0, signed_by.len() as int) =~= signed_by@);
        if has_all {
            // cannot binNMU arch: all
            return None;
        }
        if archs.len() == 0 {
            // this should not happen, but just to be on the safe side
            return None;
        }
        let version = match &item.new_version {
            Some(v) => v.to_string(),
            None => return None,
        };
        let mut source_specifier = SourceSpecifier::new(item.source.as_str());
        source_specifier.with_version(version.as_str());
        if !source_packages.is_ma_same(item.source.as_str()) {
            source_specifier.with_architectures(archs.as_slice());
            assert(source_specifier@.architectures =~= archs@);
        }
        match BinNMU::new(&source_specifier, "Rebuild on buildd") {
            Ok(command) => {
                proof {
                    reveal_strlit("Rebuild on buildd");
                }
                Some(command.build())
            },
            Err(_) => None,
        }
    }

    /// The action for an item.
    pub fn build_action(&self, item: &ExcusesItem, source_packages: &SourcePackages) -> (r: Option<Action>)
        requires
            action_defined(self.options, *item),
        ensures
            match r {
                Some(a) => action_of(self.options, *item, source_packages@) == Some(a@),
                None => action_of(self.options, *item, source_packages@) is None,
            },
    {
        if !Self::is_actionable(item) {
            return None;
        }
        if Self::is_unblock_actionable(item) {
            match Self::build_unblock(item) {
                Some(u) => Some(Action::Unblock(u)),
                None => None,
            }
        } else if Self::is_binnmu_actionable(item) {
            match self.build_binnmu(item, source_packages) {
                Some(c) => Some(Action::BinNMU(c)),
                None => None,
            }
        } else {
            None
        }
    }

    /// The unblock hint of an item.
    pub fn build_unblock(item: &ExcusesItem) -> (r: Option<String>)
        ensures
            match r {
                Some(u) => unblock_of(*item) == Some(u@),
                None => unblock_of(*item) is None,
            },
    {
        let mut unblock = String::from_str("unblock ");
        unblock.append(item.source.as_str());
        // append _tpu if item is from _tpu
        if item.is_from_tpu() {
            unblock.append("_tpu");
        }
        // append version
        unblock.append("/");
        match &item.new_version {
            Some(version) => {
                let t = version.to_string();
                unblock.append(t.as_str());
            },
            None => return None,
        }
        // append architecture for binNMUs
        if item.is_binnmu() {
            unblock.append("/");
            match item.binnmu_arch() {
                Some(arch) => unblock.append(arch.as_str()),
                None => return None,
            }
        }
        Some(unblock)
    }

    /// Whether an item can be acted on.
    pub fn is_actionable(item: &ExcusesItem) -> (r: bool)
        ensures
            r == actionable(*item),
    {
        if item.is_removal() {
            // skip removals
            return false;
        }
        if item.is_from_pu() {
            // skip PU requests
            return false;
        }
        if let Some(true) = item.invalidated_by_other_package {
            // skip otherwise blocked packages
            return false;
        }
        true
    }

    /// Whether an item can be rebuilt.
    pub fn is_binnmu_actionable(item: &ExcusesItem) -> (r: bool)
        ensures
            r == binnmu_actionable(*item),
    {
        if item.is_from_tpu() {
            // skip TPU requests
            return false;
        }
        match item.component {
            Some(Component::Main) | None => {},
            Some(_) => {
                // skip non-free and contrib
                return false;
            },
        }
        if item.missing_builds.is_some() {
            // skip packages with missing builds
            return false;
        }
        true
    }

    /// Whether an item can be unblocked.
    pub fn is_unblock_actionable(item: &ExcusesItem) -> (r: bool)
        ensures
            r == unblock_actionable(*item),
    {
        if !item.is_from_tpu() && !item.is_binnmu() {
            // skip non-tpu requests
            return false;
        }
        if item.migration_policy_verdict != Verdict::RejectedNeedsApproval {
            // skip packages not requiring approval
            return false;
        }
        true
    }

    /// Processes the items: the unblocks and the new binNMUs, each once;
    /// binNMUs scheduled before are skipped, and new ones are remembered as
    /// scheduled unless it is a dry run.
    pub fn process(
        &self,
        items: &[ExcusesItem],
        source_packages: &SourcePackages,
        scheduled: &mut ScheduledBinNMUs,
        dry_run: bool,
    ) -> (r: (Vec<String>, Vec<WBCommand>))
        requires
            forall|i: int| 0 <= i < items@.len() ==> action_defined(self.options, #[trigger] items@[i]),
        ensures
            ({
                let (u, b, s) = processed(
                    self.options,
                    items@,
                    source_packages@,
                    commands_view(old(scheduled).binnmus@),
                    dry_run,
                );
                &&& views(r.0@) == u
                &&& commands_view(r.1@) == b
                &&& commands_view(final(scheduled).binnmus@) == s
            }),
    {
        let ghost s0 = commands_view(scheduled.binnmus@);
        let mut unblocks: Vec<String> = Vec::new();
        let mut binnmus: Vec<WBCommand> = Vec::new();
        let mut i: usize = 0;
        assert(items@.subrange(0, 0) =~= Seq::<ExcusesItem>::empty());
        assert(views(unblocks@) =~= Seq::<Seq<char>>::empty());
        assert(commands_view(binnmus@) =~= Seq::<Seq<char>>::empty());
        while i < items.len()
            invariant
                i <= items.len(),
                forall|k: int| 0 <= k < items@.len() ==> action_defined(self.options, #[trigger] items@[k]),
                ({
                    let (u, b, s) = processed(
                        self.options,
                        items@.subrange(0, i as int),
                        source_packages@,
                        s0,
                        dry_run,
                    );
                    &&& views(unblocks@) == u
                    &&& commands_view(binnmus@) == b
                    &&& commands_view(scheduled.binnmus@) == s
                }),
            decreases items.len() - i,
        {
            let ghost prefix = items@.subrange(0, i + 1);
            assert(prefix.drop_last() =~= items@.subrange(0, i as int));
            assert(prefix.last() == items@[i as int]);
            let item = &items[i];
            assert(action_defined(self.options, *item));
            match self.build_action(item, source_packages) {
                None => {},
                Some(Action::Unblock(u)) => {
                    if !contains_text(&unblocks, u.as_str()) {
                        let ghost before = unblocks@;
                        unblocks.push(u);
                        assert(views(unblocks@) =~= views(before).push(u@));
                    }
                },
                Some(Action::BinNMU(c)) => {
                    if !scheduled.contains(&c) {
                        if !dry_run {
                            scheduled.store(&c);
                        }
                        if !contains_command(&binnmus, &c) {
                            let ghost before = binnmus@;
                            binnmus.push(c);
                            assert(commands_view(binnmus@) =~= commands_view(before).push(c@));
                        }
                    }
                },
            }
            i = i + 1;
        }
        assert(items@.subrange(0, items.len() as int) =~= items@);
        (unblocks, binnmus)
    }
}


/// Processing schedules each binNMU once: it returns no binNMU that was
/// scheduled before, each binNMU and each unblock only once, and, unless
/// it is a dry run, remembers every binNMU it returns after those that
/// were scheduled before; a dry run leaves the scheduled binNMUs as they
/// were.
pub proof fn lemma_processed_schedules_once(
    o: ProcessExcusesOptions,
    items: Seq<ExcusesItem>,
    sources: Map<Seq<char>, (bool, VersionModel)>,
    scheduled: Seq<Seq<char>>,
    dry_run: bool,
)
    ensures
        ({
            let (u, b, s) = processed(o, items, sources, scheduled, dry_run);
            &&& forall|i: int| 0 <= i < b.len() ==> !scheduled.contains(#[trigger] b[i])
            &&& forall|i: int, j: int| 0 <= i < j < b.len() ==> b[i] != b[j]
            &&& forall|i: int, j: int| 0 <= i < j < u.len() ==> u[i] != u[j]
            &&& scheduled.len() <= s.len() && s.subrange(0, scheduled.len() as int) == scheduled
            &&& !dry_run ==> forall|i: int| 0 <= i < b.len() ==> s.contains(#[trigger] b[i])
            &&& dry_run ==> s == scheduled
        }),
    decreases items.len(),
{
    if items.len() > 0 {
        lemma_processed_schedules_once(o, items.drop_last(), sources, scheduled, dry_run);
        let (u, b, s) = processed(o, items.drop_last(), sources, scheduled, dry_run);
        assert(s.subrange(0, scheduled.len() as int) == scheduled);
        match action_of(o, items.last(), sources) {
            None => {},
            Some(ActionModel::Unblock(t)) => {
                if !u.contains(t) {
                    let u2 = u.push(t);
                    assert forall|i: int, j: int| 0 <= i < j < u2.len() implies u2[i] != u2[j] by {
                        if j == u.len() {
                            assert(u2[i] == u[i]);
                        } else {
                            assert(u2[i] == u[i] && u2[j] == u[j]);
                        }
                    }
                }
            },
            Some(ActionModel::BinNMU(c)) => {
                if !s.contains(c) {
                    assert(!scheduled.contains(c)) by {
                        if scheduled.contains(c) {
                            let k = choose|k: int| 0 <= k < scheduled.len() && scheduled[k] == c;
                            assert(s[k] == s.subrange(0, scheduled.len() as int)[k]);
                        }
                    }
                    let b2 = if b.contains(c) { b } else { b.push(c) };
                    let s2 = if dry_run { s } else { s.push(c) };
                    assert forall|i: int| 0 <= i < b2.len() implies !scheduled.contains(#[trigger] b2[i]) by {
                        if i < b.len() {
                            assert(b2[i] == b[i]);
                        }
                    }
                    assert forall|i: int, j: int| 0 <= i < j < b2.len() implies b2[i] != b2[j] by {
                        if j == b.len() {
                            assert(b2[i] == b[i]);
                        } else {
                            assert(b2[i] == b[i] && b2[j] == b[j]);
                        }
                    }
                    if !dry_run {
                        assert(s2.subrange(0, scheduled.len() as int) =~= s.subrange(0, scheduled.len() as int));
                        assert forall|i: int| 0 <= i < b2.len() implies s2.contains(#[trigger] b2[i]) by {
                            if i < b.len() {
                                assert(b2[i] == b[i]);
                                let k = choose|k: int| 0 <= k < s.len() && s[k] == b[i];
                                assert(s2[k] == s[k]);
                            } else {
                                assert(s2[s.len() as int] == c);
                            }
                        }
                    }
                }
            },
        }
    }
}


/// After processing, every binNMU that the items ask for is scheduled.
proof fn lemma_processed_covers(
    o: ProcessExcusesOptions,
    items: Seq<ExcusesItem>,
    sources: Map<Seq<char>, (bool, VersionModel)>,
    scheduled: Seq<Seq<char>>,
)
    ensures
        forall|k: int|
            0 <= k < items.len() ==> (action_of(o, #[trigger] items[k], sources) matches Some(ActionModel::BinNMU(c))
                ==> processed(o, items, sources, scheduled, false).2.contains(c)),
    decreases items.len(),
{
    if items.len() > 0 {
        let prefix = items.drop_last();
        lemma_processed_covers(o, prefix, sources, scheduled);
        let (u, b, s) = processed(o, prefix, sources, scheduled, false);
        let s2 = processed(o, items, sources, scheduled, false).2;
        assert(s.len() <= s2.len() && forall|j: int| 0 <= j < s.len() ==> s2[j] == s[j]);
        assert forall|k: int|
            0 <= k < items.len() && (action_of(o, #[trigger] items[k], sources) matches Some(ActionModel::BinNMU(c))) implies
            s2.contains(action_of(o, items[k], sources)->0->BinNMU_0) by {
            let c = action_of(o, items[k], sources)->0->BinNMU_0;
            if k < items.len() - 1 {
                assert(prefix[k] == items[k]);
                assert(s.contains(c));
                let j = choose|j: int| 0 <= j < s.len() && s[j] == c;
                assert(s2[j] == c);
            } else {
                if !s.contains(c) {
                    assert(s2 == s.push(c));
                    assert(s2[s.len() as int] == c);
                }
            }
        }
    }
}

/// Processing items whose binNMUs are all scheduled returns no binNMU.
proof fn lemma_processed_nothing_new(
    o: ProcessExcusesOptions,
    items: Seq<ExcusesItem>,
    sources: Map<Seq<char>, (bool, VersionModel)>,
    scheduled: Seq<Seq<char>>,
    dry_run: bool,
)
    requires
        forall|k: int|
            0 <= k < items.len() ==> (action_of(o, #[trigger] items[k], sources) matches Some(ActionModel::BinNMU(c))
                ==> scheduled.contains(c)),
    ensures
        processed(o, items, sources, scheduled, dry_run).1.len() == 0,
    decreases items.len(),
{
    if items.len() > 0 {
        let prefix = items.drop_last();
        assert forall|k: int|
            0 <= k < prefix.len() && (action_of(o, #[trigger] prefix[k], sources) matches Some(ActionModel::BinNMU(c))) implies
            scheduled.contains(action_of(o, prefix[k], sources)->0->BinNMU_0) by {
            assert(prefix[k] == items[k]);
        }
        lemma_processed_nothing_new(o, prefix, sources, scheduled, dry_run);
        lemma_processed_schedules_once(o, prefix, sources, scheduled, dry_run);
        let (u, b, s) = processed(o, prefix, sources, scheduled, dry_run);
        match action_of(o, items.last(), sources) {
            Some(ActionModel::BinNMU(c)) => {
                assert(scheduled.contains(c));
                let j = choose|j: int| 0 <= j < scheduled.len() && scheduled[j] == c;
                assert(s[j] == s.subrange(0, scheduled.len() as int)[j]);
                assert(s.contains(c));
            },
            _ => {},
        }
    }
}

/// Processing the same items again, with the binNMUs that the first run
/// scheduled, schedules no binNMU.
pub proof fn lemma_processed_twice(
    o: ProcessExcusesOptions,
    items: Seq<ExcusesItem>,
    sources: Map<Seq<char>, (bool, VersionModel)>,
    scheduled: Seq<Seq<char>>,
)
    ensures
        processed(o, items, sources, processed(o, items, sources, scheduled, false).2, false).1.len() == 0,
{
    lemma_processed_covers(o, items, sources, scheduled);
    lemma_processed_nothing_new(o, items, sources, processed(o, items, sources, scheduled, false).2, false);
}

} // verus!
