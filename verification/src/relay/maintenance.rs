//! What a maintenance sweep deletes, and in which order.

use crate::ids::Uuid;
use vstd::prelude::*;

verus! {

/// Why a terminal is deleted.
#[derive(Debug, Clone, Copy, PartialEq, Eq, Structural)]
pub enum Cause {
    /// It was closed longer ago than closed terminals are kept.
    Retention,
    /// Storage is over its quota.
    Quota,
}

/// What a sweep does next.
#[derive(Debug, Clone, Copy, PartialEq, Eq, Structural)]
pub enum Next {
    Delete { terminal_id: Uuid, cause: Cause },
    /// Find out how many bytes of output are stored.
    Measure,
    /// List the closed terminals, the oldest first.
    ListClosed,
    /// The sweep is over. `exceeded` says that the quota could not be met.
    Done { exceeded: bool },
}

/// How far a sweep has come.
#[derive(Debug)]
pub struct Sweep {
    /// Closed terminals that are past their retention.
    pub expired: Vec<Uuid>,
    /// How many of them are gone.
    pub expired_gone: usize,
    /// Bytes of stored output, as last measured after the latest deletion.
    pub used: Option<u64>,
    /// The closed terminals that are left, the oldest first.
    pub closed: Option<Vec<Uuid>>,
    /// How many of them are gone.
    pub closed_gone: usize,
}

/// What a sweep does next.
pub open spec fn next_of(sweep: Sweep, quota: u64) -> Next {
    if sweep.expired_gone < sweep.expired@.len() {
        Next::Delete {
            terminal_id: sweep.expired@[sweep.expired_gone as int],
            cause: Cause::Retention,
        }
    } else {
        match sweep.used {
            None => Next::Measure,
            Some(used) => if used <= quota {
                Next::Done { exceeded: false }
            } else {
                match sweep.closed {
                    None => Next::ListClosed,
                    Some(closed) => if sweep.closed_gone < closed@.len() {
                        Next::Delete {
                            terminal_id: closed@[sweep.closed_gone as int],
                            cause: Cause::Quota,
                        }
                    } else {
                        Next::Done { exceeded: true }
                    },
                }
            },
        }
    }
}

impl Sweep {
    /// A sweep that starts with these expired terminals.
    pub fn new(expired: Vec<Uuid>) -> (sweep: Self)
        ensures
            sweep.expired == expired,
            sweep.expired_gone == 0,
            sweep.used is None,
            sweep.closed is None,
            sweep.closed_gone == 0,
    {
        Self { expired, expired_gone: 0, used: None, closed: None, closed_gone: 0 }
    }

    /// What to do next. Expired closed terminals go first; then, while storage is over
    /// its quota, the oldest closed ones. An open terminal is never trimmed to meet a
    /// quota: storage that cannot meet it fails readiness instead.
    pub fn next(&self, quota: u64) -> (next: Next)
        ensures
            next == next_of(*self, quota),
    {
        if self.expired_gone < self.expired.len() {
            return Next::Delete {
                terminal_id: self.expired[self.expired_gone],
                cause: Cause::Retention,
            };
        }
        let used: u64 = match self.used {
            None => return Next::Measure,
            Some(used) => used,
        };
        if used <= quota {
            return Next::Done { exceeded: false };
        }
        match &self.closed {
            None => Next::ListClosed,
            Some(closed) => {
                if self.closed_gone < closed.len() {
                    Next::Delete { terminal_id: closed[self.closed_gone], cause: Cause::Quota }
                } else {
                    Next::Done { exceeded: true }
                }
            },
        }
    }

    /// Notes that what was to be deleted next is gone. Storage has to be measured again.
    pub fn deleted(&mut self, quota: u64)
        requires
            next_of(*old(self), quota) is Delete,
        ensures
            final(self).expired == old(self).expired,
            final(self).closed == old(self).closed,
            final(self).used is None,
            match next_of(*old(self), quota)->cause {
                Cause::Retention => final(self).expired_gone == old(self).expired_gone + 1
                    && final(self).closed_gone == old(self).closed_gone,
                Cause::Quota => final(self).expired_gone == old(self).expired_gone
                    && final(self).closed_gone == old(self).closed_gone + 1,
            },
    {
        if self.expired_gone < self.expired.len() {
            self.expired_gone = self.expired_gone + 1;
        } else {
            let left: usize = match &self.closed {
                Some(closed) => closed.len(),
                None => 0,
            };
            assert(self.closed_gone < left);
            self.closed_gone = self.closed_gone + 1;
        }
        self.used = None;
    }
}

/// Terminals that were closed before this moment are past their retention.
pub fn retention_cutoff(now: i64, retention_seconds: i64) -> (cutoff: i64)
    requires
        i64::MIN <= now - retention_seconds * 1000 <= i64::MAX,
    ensures
        cutoff == now - retention_seconds * 1000,
{
    (now as i128 - retention_seconds as i128 * 1000) as i64
}

/// Nothing is deleted for the quota's sake while anything expired is left, or while
/// storage is known to be within the quota.
pub proof fn law_quota_deletes_last(sweep: Sweep, quota: u64)
    requires
        next_of(sweep, quota) is Delete,
        next_of(sweep, quota)->cause == Cause::Quota,
    ensures
        sweep.expired_gone >= sweep.expired@.len(),
        sweep.used is Some,
        sweep.used->0 > quota,
        sweep.closed is Some,
        sweep.closed->0@.contains(next_of(sweep, quota)->terminal_id),
{
    let closed = sweep.closed->0@;
    assert(closed[sweep.closed_gone as int] == next_of(sweep, quota)->terminal_id);
}

/// A sweep fails to meet the quota only once no closed terminal is left.
pub proof fn law_quota_fails_only_without_closed_terminals(sweep: Sweep, quota: u64)
    requires
        next_of(sweep, quota) == (Next::Done { exceeded: true }),
    ensures
        sweep.closed is Some,
        sweep.closed_gone >= sweep.closed->0@.len(),
        sweep.used->0 > quota,
{
}

} // verus!
