//! The retention policy: the age after which items are deleted, and the
//! sweep that deletes them.

use crate::clock::unix_now;
use crate::config::Retention;
use crate::error::ErrorKind;
use crate::model::{after_delete, expired};
use crate::store::{is_removal, Removal, Store};
use vstd::prelude::*;

verus! {

/// The number of seconds in a day.
pub const SECONDS_PER_DAY: i64 = 86400;

/// The retention policy.
#[derive(Debug, Clone, Copy, PartialEq, Eq, Structural)]
pub struct RetentionPolicy {
    /// The number of days to keep an item.
    pub days: u32,
    /// If set, only items that are not pinned are deleted; if not, every
    /// item of that age is.
    pub delete_unstarred_only: bool,
}

/// The cutoff of a policy at time `now`: `days` days before `now`.
pub open spec fn cutoff_of(days: u32, now: int) -> int {
    now - days * SECONDS_PER_DAY
}

impl RetentionPolicy {
    /// The policy that the settings ask for.
    pub fn from_config(retention: &Retention) -> (policy: Self)
        ensures
            policy.days == retention.days,
            policy.delete_unstarred_only == retention.delete_unstarred_only,
    {
        Self { days: retention.days, delete_unstarred_only: retention.delete_unstarred_only }
    }

    /// The cutoff at time `now`, in seconds: items created before it have
    /// expired.
    pub fn cutoff_at(&self, now: i64) -> (cutoff: i64)
        requires
            cutoff_of(self.days, now as int) >= i64::MIN,
        ensures
            cutoff == cutoff_of(self.days, now as int),
    {
        let span: i64 = (self.days as i64) * SECONDS_PER_DAY;
        now - span
    }

    /// The cutoff at the time of the call, by the wall clock. Fails where
    /// the clock cannot be read.
    pub fn cutoff_timestamp(&self) -> (result: Result<i64, ErrorKind>)
        ensures
            match result {
                Ok(cutoff) => exists|now: int| 0 <= now <= i64::MAX && cutoff == #[trigger] cutoff_of(
                    self.days,
                    now,
                ),
                Err(kind) => kind == ErrorKind::ExternalToolFailure,
            },
    {
        match unix_now() {
            Some(now) => {
                let cutoff = self.cutoff_at(now);
                Ok(cutoff)
            },
            None => Err(ErrorKind::ExternalToolFailure),
        }
    }

    /// Whether the cutoff at time `now` can be told in 64 bits.
    pub fn has_cutoff(&self, now: i64) -> (yes: bool)
        ensures
            yes == (cutoff_of(self.days, now as int) >= i64::MIN),
    {
        let span: i64 = (self.days as i64) * SECONDS_PER_DAY;
        now >= i64::MIN + span
    }
}

/// Runs the retention sweep once, at time `now`: deletes the items created
/// before the cutoff, sparing pinned ones where the policy says so. The
/// artifact files of the hashes returned remain to be removed.
pub fn run_cleanup(store: &mut Store, policy: &RetentionPolicy, now: i64) -> (removal: Removal)
    requires
        old(store).well_formed(),
        cutoff_of(policy.days, now as int) >= i64::MIN,
    ensures
        final(store).well_formed(),
        final(store)@ == after_delete(
            old(store)@,
            expired(cutoff_of(policy.days, now as int), policy.delete_unstarred_only),
        ),
        is_removal(
            removal,
            old(store)@,
            expired(cutoff_of(policy.days, now as int), policy.delete_unstarred_only),
        ),
{
    let cutoff = policy.cutoff_at(now);
    store.sweep(cutoff, policy.delete_unstarred_only)
}

} // verus!
