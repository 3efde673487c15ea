//! The unblocks that the excuses ask for: uploads to
//! testing-proposed-updates and binNMUs that need approval.

use vstd::prelude::*;

use crate::excuses::{opt_version, same_opt_version, ExcusesItem, Verdict};
use crate::process_excuses::{unblock_of, ProcessExcuses};
use crate::strings::views;
use crate::text::has_suffix;

verus! {

/// The items that need an unblock: not removals, not from
/// proposed-updates, from testing-proposed-updates or binNMUs, not
/// invalidated by another package, and waiting for approval.
pub open spec fn unblock_wanted(item: ExcusesItem) -> bool {
    &&& item.new_version is Some
    &&& !has_suffix(item.item_name@, "_pu"@)
    &&& (has_suffix(item.item_name@, "_tpu"@) || same_opt_version(
        opt_version(item.new_version),
        opt_version(item.old_version),
    ))
    &&& item.invalidated_by_other_package != Some(true)
    &&& item.migration_policy_verdict == Verdict::RejectedNeedsApproval
}

/// The unblock hints of the items that need one, in order.
pub open spec fn unblocks_of(items: Seq<ExcusesItem>) -> Seq<Seq<char>>
    decreases items.len(),
{
    if items.len() == 0 {
        Seq::empty()
    } else {
        let before = unblocks_of(items.drop_last());
        if unblock_wanted(items.last()) {
            match unblock_of(items.last()) {
                Some(u) => before.push(u),
                None => before,
            }
        } else {
            before
        }
    }
}

/// The unblock processor.
#[derive(Debug)]
pub struct ProcessUnblocks;

impl ProcessUnblocks {
    /// A processor.
    pub fn new() -> (r: Self) {
        ProcessUnblocks
    }

    /// The unblock hint of an item that needs one.
    pub fn build_unblock(item: &ExcusesItem) -> (r: Option<String>)
        ensures
            match r {
                Some(u) => unblock_wanted(*item) && unblock_of(*item) == Some(u@),
                None => !unblock_wanted(*item) || unblock_of(*item) is None,
            },
    {
        if !Self::is_actionable(item) {
            return None;
        }
        ProcessExcuses::build_unblock(item)
    }

    /// Whether an item needs an unblock.
    pub fn is_actionable(item: &ExcusesItem) -> (r: bool)
        ensures
            r == unblock_wanted(*item),
    {
        if item.is_removal() {
            // skip removals
            return false;
        }
        if item.is_from_pu() {
            // skip pu
            return false;
        }
        if !item.is_from_tpu() && !item.is_binnmu() {
            // skip non-tpu requests
            return false;
        }
        if let Some(true) = item.invalidated_by_other_package {
            // skip otherwise blocked packages
            return false;
        }
        if item.migration_policy_verdict != Verdict::RejectedNeedsApproval {
            // skip packages not requiring approval
            return false;
        }
        true
    }

    /// The unblock hints of the items that need one, in order.
    pub fn unblocks(items: &[ExcusesItem]) -> (r: Vec<String>)
        ensures
            views(r@) == unblocks_of(items@),
    {
        let mut out: Vec<String> = Vec::new();
        let mut i: usize = 0;
        assert(items@.subrange(0, 0) =~= Seq::<ExcusesItem>::empty());
        assert(views(out@) =~= Seq::<Seq<char>>::empty());
        while i < items.len()
            invariant
                i <= items.len(),
                views(out@) == unblocks_of(items@.subrange(0, i as int)),
            decreases items.len() - i,
        {
            let ghost p = items@.subrange(0, i + 1);
            assert(p.drop_last() =~= items@.subrange(0, i as int));
            assert(p.last() == items@[i as int]);
            match Self::build_unblock(&items[i]) {
                Some(u) => {
                    let ghost before = views(out@);
                    out.push(u);
                    assert(views(out@) =~= before.push(u@));
                },
                None => {},
            }
            i = i + 1;
        }
        assert(items@.subrange(0, items.len() as int) =~= items@);
        out
    }
}

} // verus!
