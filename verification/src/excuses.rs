//! # The excuses of `britney` for testing migration
//!
//! The data of `excuses.yaml` that the release team tools read: for each
//! migration item, its versions, its policies and their verdicts. Only a
//! biased selection of the fields is represented.

use vstd::prelude::*;

use crate::architectures::{parse_architecture, Architecture};
use crate::archive::Component;
use crate::package::PackageName;
use crate::strings::ends_with;
use crate::text::{chars_of, find_char, first_index, has_suffix, lemma_first_index, split_once, string_of};
use crate::version::{version_order, PackageVersion, VersionModel};

verus! {

/// A policy's verdict
#[derive(Clone, Copy, Debug, PartialEq, Eq, Structural)]
pub enum Verdict {
    /// Policy passed
    Pass,
    /// Policy passed due to a hint
    PassHinted,
    /// Rejected due to a block hint or because the upload requires explicit approval (e.g.,
    /// uploads to proposed-updates or testing-proposed-updates)
    RejectedNeedsApproval,
    /// Rejected tu to a permanent issue
    RejectedPermanently,
    /// Rejected due to a transient issue
    RejectedTemporarily,
    /// Rejected, but not able to determine if the issue is transient
    RejectedCannotDetermineIfPermanent,
    /// Reject due to another blocking item.
    RejectedBlockedByAnotherItem,
    /// Reject due to another blocking item.
    RejectedWaitingForAnotherItem,
}

/// Age policy info
#[derive(Debug)]
pub struct AgeInfo {
    /// The required age
    pub age_requirement: u32,
    /// The current age
    pub current_age: u32,
    /// The verdict
    pub verdict: Verdict,
}

/// Catch-all policy info
#[derive(Debug)]
pub struct UnspecfiedPolicyInfo {
    /// The verdict
    pub verdict: Verdict,
}

/// Built-on-buildd policy info
#[derive(Debug)]
pub struct BuiltOnBuildd {
    /// The signers for each architecture
    pub signed_by: Vec<(Architecture, Option<String>)>,
    /// The verdict
    pub verdict: Verdict,
}

/// Collected policy infos
#[derive(Debug)]
pub struct PolicyInfo {
    /// The age policy
    pub age: Option<AgeInfo>,
    /// The built-on-buildd policy
    pub builtonbuildd: Option<BuiltOnBuildd>,
    /// The autopkgtest policy
    pub autopkgtest: Option<UnspecfiedPolicyInfo>,
    /// All remaining policies, by name
    pub extras: Vec<(String, UnspecfiedPolicyInfo)>,
}

/// List of missing builds
#[derive(Debug)]
pub struct MissingBuilds {
    /// Architectures where builds are missing
    pub on_architectures: Vec<Architecture>,
}

/// A source package's excuses
#[derive(Debug)]
pub struct ExcusesItem {
    /// Maintainer of the package
    pub maintainer: Option<String>,
    /// The item is a candidate for migration
    pub is_candidate: bool,
    /// Version in the source suite, i.e., the version to migrate
    ///
    /// If the value is `None`, the package is being removed.
    pub new_version: Option<PackageVersion>,
    /// Version in the target suite
    ///
    /// If the value is `None`, the package is not yet available in the target suite.
    pub old_version: Option<PackageVersion>,
    /// Migration item name
    pub item_name: String,
    /// Source package name
    pub source: PackageName,
    /// Migration is blocked by another package
    pub invalidated_by_other_package: Option<bool>,
    /// Component of the source package
    pub component: Option<Component>,
    /// Missing builds
    pub missing_builds: Option<MissingBuilds>,
    /// Policy info
    pub policy_info: Option<PolicyInfo>,
    /// The excuses
    pub excuses: Vec<String>,
    /// Combined verdict
    pub migration_policy_verdict: Verdict,
}

/// The excuses.
#[derive(Debug)]
pub struct Excuses {
    /// Date of the run that produced `excuses.yaml`, in seconds since the
    /// Unix epoch
    pub generated_date: i64,
    /// All excuse items
    ///
    /// While not every excuses item relates to a source package, the field is still named that way in `excuses.yaml`
    pub sources: Vec<ExcusesItem>,
}

/// The view of an optional version.
pub open spec fn opt_version(v: Option<PackageVersion>) -> Option<VersionModel> {
    match v {
        Some(x) => Some(x@),
        None => None,
    }
}

/// Two optional versions are equal: both absent, or both present and
/// equal in the order of versions.
pub open spec fn same_opt_version(a: Option<VersionModel>, b: Option<VersionModel>) -> bool {
    match (a, b) {
        (None, None) => true,
        (Some(x), Some(y)) => version_order(x, y) == 0,
        _ => false,
    }
}

/// The architecture part of a binNMU item name `source/arch` or
/// `source/arch_suite`, if the name has one.
pub open spec fn binnmu_arch_text(name: Seq<char>) -> Option<Seq<char>> {
    match split_once(name, '/') {
        Some(p) => Some(
            match split_once(p.1, '_') {
                Some(q) => q.0,
                None => p.1,
            },
        ),
        None => None,
    }
}

impl ExcusesItem {
    /// Excuses item refers to package removal
    pub fn is_removal(&self) -> (r: bool)
        ensures
            r == (self.new_version is None),
    {
        self.new_version.is_none()
    }

    /// Excuses item refers to a binNMU
    pub fn is_binnmu(&self) -> (r: bool)
        ensures
            r == same_opt_version(opt_version(self.new_version), opt_version(self.old_version)),
    {
        match (&self.new_version, &self.old_version) {
            (None, None) => true,
            (Some(x), Some(y)) => x.order(y) == 0,
            _ => false,
        }
    }

    /// The architecture part of the item name, if it has one.
    fn binnmu_arch_part(&self) -> (r: Option<String>)
        ensures
            match binnmu_arch_text(self.item_name@) {
                Some(t) => r matches Some(x) && x@ == t,
                None => r is None,
            },
    {
        let v = chars_of(self.item_name.as_str());
        let slash = find_char(&v, '/');
        proof {
            lemma_first_index(v@, '/');
        }
        if slash == v.len() {
            return None;
        }
        let ghost rest = v@.subrange(slash + 1, v@.len() as int);
        let rv = chars_of(string_of(&v, slash + 1, v.len()).as_str());
        let under = find_char(&rv, '_');
        proof {
            lemma_first_index(rv@, '_');
        }
        let arch = string_of(&rv, 0, under);
        assert(rv@ == rest);
        proof {
            if under < rv.len() {
                let q = split_once(rest, '_')->0;
                assert(arch@ =~= q.0);
            } else {
                assert(arch@ =~= rest);
            }
        }
        Some(arch)
    }

    /// Get architecture of the binNMU or `None`
    pub fn binnmu_arch(&self) -> (r: Option<Architecture>)
        ensures
            r == (match binnmu_arch_text(self.item_name@) {
                Some(t) => parse_architecture(t),
                None => None,
            }),
    {
        match self.binnmu_arch_part() {
            Some(arch) => match Architecture::try_from(arch.as_str()) {
                Ok(a) => Some(a),
                Err(_) => None,
            },
            None => None,
        }
    }

    /// Excuses item refers to an item in (stable) proposed-updates
    pub fn is_from_pu(&self) -> (r: bool)
        ensures
            r == has_suffix(self.item_name@, "_pu"@),
    {
        ends_with(self.item_name.as_str(), "_pu")
    }

    /// Excuses item refers to an item in testing-proposed-updates
    pub fn is_from_tpu(&self) -> (r: bool)
        ensures
            r == has_suffix(self.item_name@, "_tpu"@),
    {
        ends_with(self.item_name.as_str(), "_tpu")
    }
}

} // verus!
