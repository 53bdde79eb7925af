//! Per-session operation quota enforcement.
//!
//! Every session is limited to a maximum number of operations per configurable
//! policy, so that long-running or abusive flows cannot consume
//! disproportionate resources; exceeding the limit fails the call with
//! [`ErrorCode::SessionOperationLimitExceeded`].
//!
//! - The **global quota policy** holds for every session; without one, the
//!   built-in default of 100 operations does.
//! - A **per-session override** wins over the global policy for that session
//!   only.
//! - [`SessionQuotaEnforcer::check_and_increment`] refuses an operation when
//!   the session's count has reached the limit, and counts it otherwise.
//! - [`SessionQuotaEnforcer::reset`] zeroes the count of a session, which can
//!   then accept up to `max_operations` further operations, and records that it
//!   did.

use crate::errors::ErrorCode;
use crate::quota_ledger::{LedgerAction, QuotaEntry, QuotaEvent, QuotaLedger, StorageKey};
use crate::quota_ledger::{LedgerView, QuotaContents};
use vstd::prelude::*;

verus! {

// ---------------------------------------------------------------------------
// Policy
// ---------------------------------------------------------------------------

/// Configurable quota policy for a session or as the global default.
///
/// `max_operations = 0` means "unlimited": the check is skipped.
#[derive(Clone, Copy, Debug, PartialEq, Eq, Structural)]
pub struct SessionQuotaPolicy {
    /// Maximum number of operations permitted within the session.
    /// `0` means unlimited (no quota enforced).
    pub max_operations: u64,
    /// Ledger timestamp when this policy was last written.
    pub updated_at: u64,
}

impl SessionQuotaPolicy {
    /// This policy as written at `timestamp`.
    pub open spec fn written_at(self, timestamp: u64) -> SessionQuotaPolicy {
        SessionQuotaPolicy { max_operations: self.max_operations, updated_at: timestamp }
    }

    /// The built-in policy.
    pub open spec fn built_in() -> SessionQuotaPolicy {
        SessionQuotaPolicy { max_operations: 100, updated_at: 0 }
    }

    /// The built-in default: 100 operations.
    pub fn default_policy() -> (r: Self)
        ensures
            r == SessionQuotaPolicy::built_in(),
            r.max_operations == 100,
            r.updated_at == 0,
    {
        SessionQuotaPolicy { max_operations: 100, updated_at: 0 }
    }

    /// A policy with an explicit limit and a zero timestamp.
    pub fn with_limit(max_operations: u64) -> (r: Self)
        ensures
            r == (SessionQuotaPolicy { max_operations, updated_at: 0 }),
    {
        SessionQuotaPolicy { max_operations, updated_at: 0 }
    }
}

// ---------------------------------------------------------------------------
// Snapshot
// ---------------------------------------------------------------------------

/// Point-in-time view of a session's quota state.
#[derive(Clone, Copy, Debug, PartialEq, Eq, Structural)]
pub struct SessionQuotaState {
    /// The session this snapshot belongs to.
    pub session_id: u64,
    /// Effective policy at the time of the query.
    pub policy: SessionQuotaPolicy,
    /// Operations consumed so far.
    pub operations_used: u64,
    /// Operations remaining (`max_operations - operations_used`, or 0 where
    /// more than the limit has been used). `u64::MAX` when the quota is
    /// unlimited.
    pub operations_remaining: u64,
    /// Number of times the quota counter has been reset.
    pub reset_count: u32,
    /// `true` when the session has reached its quota.
    pub is_exhausted: bool,
}

// ---------------------------------------------------------------------------
// Model
// ---------------------------------------------------------------------------

impl QuotaContents {
    /// The global policy, or the built-in one.
    pub open spec fn effective_global(self) -> SessionQuotaPolicy {
        match self.global_policy {
            Some(policy) => policy,
            None => SessionQuotaPolicy::built_in(),
        }
    }

    /// The override of a session, where it has one.
    pub open spec fn session_override(self, session_id: u64) -> Option<SessionQuotaPolicy> {
        if self.overrides.contains_key(session_id) {
            Some(self.overrides[session_id])
        } else {
            None
        }
    }

    /// The policy that holds for a session: its override, else the global
    /// policy, else the built-in one.
    pub open spec fn effective_policy(self, session_id: u64) -> SessionQuotaPolicy {
        match self.session_override(session_id) {
            Some(policy) => policy,
            None => self.effective_global(),
        }
    }

    /// How many operations a session has used.
    pub open spec fn operations_used(self, session_id: u64) -> u64 {
        if self.operation_counts.contains_key(session_id) {
            self.operation_counts[session_id]
        } else {
            0
        }
    }

    /// How often the counter of a session has been reset.
    pub open spec fn resets(self, session_id: u64) -> u32 {
        if self.reset_counts.contains_key(session_id) {
            self.reset_counts[session_id]
        } else {
            0
        }
    }

    /// The limit of a session; `None` where it is unlimited.
    pub open spec fn limit(self, session_id: u64) -> Option<u64> {
        let max = self.effective_policy(session_id).max_operations;
        if max == 0 {
            None
        } else {
            Some(max)
        }
    }

    /// Whether a session may perform a further operation.
    pub open spec fn admits(self, session_id: u64) -> bool {
        match self.limit(session_id) {
            Some(max) => self.operations_used(session_id) < max,
            None => true,
        }
    }

    /// How many further operations a session may perform; `u64::MAX` where it
    /// is unlimited.
    pub open spec fn operations_remaining(self, session_id: u64) -> u64 {
        let used = self.operations_used(session_id);
        match self.limit(session_id) {
            Some(max) => if used < max {
                (max - used) as u64
            } else {
                0
            },
            None => u64::MAX,
        }
    }

    /// The snapshot of a session's quota.
    pub open spec fn snapshot(self, session_id: u64) -> SessionQuotaState {
        SessionQuotaState {
            session_id,
            policy: self.effective_policy(session_id),
            operations_used: self.operations_used(session_id),
            operations_remaining: self.operations_remaining(session_id),
            reset_count: self.resets(session_id),
            is_exhausted: !self.admits(session_id),
        }
    }
}

/// `n + 1`, or `n` where that does not fit.
pub open spec fn next_reset_count(n: u32) -> u32 {
    if n < u32::MAX {
        (n + 1) as u32
    } else {
        n
    }
}

impl LedgerView {
    /// The ledger after `policy` was made the global one.
    pub open spec fn with_global_policy(self, policy: SessionQuotaPolicy) -> LedgerView {
        self.put(QuotaEntry::GlobalPolicy { policy: policy.written_at(self.timestamp) })
    }

    /// The ledger after `policy` was made the override of a session.
    pub open spec fn with_override(
        self,
        session_id: u64,
        policy: SessionQuotaPolicy,
    ) -> LedgerView {
        self.put(
            QuotaEntry::SessionPolicy { session_id, policy: policy.written_at(self.timestamp) },
        )
    }

    /// The ledger after the override of a session was removed.
    pub open spec fn without_override(self, session_id: u64) -> LedgerView {
        if self.contents.overrides.contains_key(session_id) {
            self.perform(LedgerAction::Delete { key: StorageKey::SessionPolicy(session_id) })
        } else {
            self
        }
    }

    /// The ledger after the counter of a session was set to `count`.
    pub open spec fn with_count(self, session_id: u64, count: u64) -> LedgerView {
        self.put(QuotaEntry::OperationCount { session_id, count })
    }

    /// The ledger after a session asked for an operation. A refused request
    /// changes nothing. One that is admitted is counted and, where there is a
    /// limit, announced.
    pub open spec fn attempt(self, session_id: u64) -> LedgerView {
        if self.contents.admits(session_id) {
            let new_count = (self.contents.operations_used(session_id) + 1) as u64;
            match self.contents.limit(session_id) {
                Some(max_operations) => self.with_count(session_id, new_count).publish(
                    QuotaEvent::Used { session_id, new_count, max_operations },
                ),
                None => self.with_count(session_id, new_count),
            }
        } else {
            self
        }
    }

    /// The ledger after the counter of a session was reset.
    pub open spec fn with_reset(self, session_id: u64) -> LedgerView {
        let resets = next_reset_count(self.contents.resets(session_id));
        self.with_count(session_id, 0).put(
            QuotaEntry::ResetCount { session_id, count: resets },
        ).publish(QuotaEvent::Reset { session_id, resets })
    }
}

// ---------------------------------------------------------------------------
// Enforcer
// ---------------------------------------------------------------------------

/// Stateless helper that enforces per-session operation quotas.
///
/// All methods operate on a [`QuotaLedger`]; no instance state is kept.
pub struct SessionQuotaEnforcer;

impl SessionQuotaEnforcer {
    /// Makes `policy` the global quota policy. Admin callers must enforce
    /// access control before calling this.
    pub fn set_global_policy(ledger: &mut QuotaLedger, policy: &SessionQuotaPolicy)
        ensures
            final(ledger)@ == old(ledger)@.with_global_policy(*policy),
            final(ledger).global_policy matches Some(written) && written.max_operations
                == policy.max_operations && written.updated_at == old(ledger).timestamp
                && final(ledger).actions@ == old(ledger).actions@.push(
                LedgerAction::Write { entry: QuotaEntry::GlobalPolicy { policy: written } },
            ).push(LedgerAction::ExtendTtl { key: StorageKey::GlobalPolicy, ledgers: 518_400 }),
            final(ledger).timestamp == old(ledger).timestamp,
            final(ledger).overrides@ == old(ledger).overrides@,
            final(ledger).operation_counts@ == old(ledger).operation_counts@,
            final(ledger).reset_counts@ == old(ledger).reset_counts@,
    {
        let mut p: SessionQuotaPolicy = *policy;
        p.updated_at = ledger.timestamp;
        ledger.put(QuotaEntry::GlobalPolicy { policy: p });
    }

    /// The global quota policy, or the built-in default when none has been
    /// configured.
    pub fn get_global_policy(ledger: &QuotaLedger) -> (r: SessionQuotaPolicy)
        ensures
            r == ledger@.contents.effective_global(),
            ledger.global_policy matches Some(policy) ==> r == policy,
            ledger.global_policy is None ==> r.max_operations == 100 && r.updated_at == 0,
    {
        match ledger.global_policy {
            Some(policy) => policy,
            None => SessionQuotaPolicy::default_policy(),
        }
    }

    /// Makes `policy` the quota override of `session_id`.
    pub fn set_session_override(
        ledger: &mut QuotaLedger,
        session_id: u64,
        policy: &SessionQuotaPolicy,
    )
        ensures
            final(ledger)@ == old(ledger)@.with_override(session_id, *policy),
            ({
                let written = SessionQuotaPolicy {
                    max_operations: policy.max_operations,
                    updated_at: old(ledger).timestamp,
                };
                let key = StorageKey::SessionPolicy(session_id);
                &&& final(ledger).overrides@ == old(ledger).overrides@.insert(session_id, written)
                &&& final(ledger).actions@ == old(ledger).actions@.push(
                    LedgerAction::Write {
                        entry: QuotaEntry::SessionPolicy { session_id, policy: written },
                    },
                ).push(LedgerAction::ExtendTtl { key, ledgers: 1_555_200 })
            }),
            final(ledger).timestamp == old(ledger).timestamp,
            final(ledger).global_policy == old(ledger).global_policy,
            final(ledger).operation_counts@ == old(ledger).operation_counts@,
            final(ledger).reset_counts@ == old(ledger).reset_counts@,
    {
        let mut p: SessionQuotaPolicy = *policy;
        p.updated_at = ledger.timestamp;
        ledger.put(QuotaEntry::SessionPolicy { session_id, policy: p });
    }

    /// Removes the override of `session_id`, which reverts to the global
    /// policy.
    pub fn clear_session_override(ledger: &mut QuotaLedger, session_id: u64)
        ensures
            final(ledger)@ == old(ledger)@.without_override(session_id),
            final(ledger).overrides@ == old(ledger).overrides@.remove(session_id),
            final(ledger).actions@ == (if old(ledger).overrides@.contains_key(session_id) {
                old(ledger).actions@.push(
                    LedgerAction::Delete { key: StorageKey::SessionPolicy(session_id) },
                )
            } else {
                old(ledger).actions@
            }),
            final(ledger).timestamp == old(ledger).timestamp,
            final(ledger).global_policy == old(ledger).global_policy,
            final(ledger).operation_counts@ == old(ledger).operation_counts@,
            final(ledger).reset_counts@ == old(ledger).reset_counts@,
    {
        if ledger.overrides.contains_key(&session_id) {
            ledger.perform(LedgerAction::Delete { key: StorageKey::SessionPolicy(session_id) });
        }
    }

    /// The override of `session_id`, or `None` when none has been configured.
    pub fn get_session_override(ledger: &QuotaLedger, session_id: u64) -> (r: Option<
        SessionQuotaPolicy,
    >)
        ensures
            r == ledger@.contents.session_override(session_id),
            ledger.overrides@.contains_key(session_id) ==> r == Some(
                ledger.overrides@[session_id],
            ),
            !ledger.overrides@.contains_key(session_id) ==> r is None,
    {
        match ledger.overrides.get(&session_id) {
            Some(policy) => Some(*policy),
            None => None,
        }
    }

    /// The effective policy for `session_id`: per-session override, then global
    /// policy, then built-in default.
    pub fn resolve_policy(ledger: &QuotaLedger, session_id: u64) -> (r: SessionQuotaPolicy)
        ensures
            r == ledger@.contents.effective_policy(session_id),
            ledger.overrides@.contains_key(session_id) ==> r == ledger.overrides@[session_id],
            !ledger.overrides@.contains_key(session_id) ==> (ledger.global_policy matches Some(
                policy,
            ) ==> r == policy),
            !ledger.overrides@.contains_key(session_id) && ledger.global_policy is None
                ==> r.max_operations == 100 && r.updated_at == 0,
    {
        if let Some(override_policy) = Self::get_session_override(ledger, session_id) {
            return override_policy;
        }
        Self::get_global_policy(ledger)
    }

    /// Checks that `session_id` has not reached its operation quota and
    /// increments its counter.
    ///
    /// An unlimited session is always admitted; its counter has to stay below
    /// the largest `u64`.
    ///
    /// # Errors
    ///
    /// [`ErrorCode::SessionOperationLimitExceeded`] when the session has
    /// reached its configured quota.
    pub fn check_and_increment(ledger: &mut QuotaLedger, session_id: u64) -> (r: Result<
        (),
        ErrorCode,
    >)
        requires
            old(ledger)@.contents.limit(session_id) is None ==> old(
                ledger,
            )@.contents.operations_used(session_id) < u64::MAX,
        ensures
            final(ledger)@ == old(ledger)@.attempt(session_id),
            r == (if old(ledger)@.contents.admits(session_id) {
                Ok::<(), ErrorCode>(())
            } else {
                Err(ErrorCode::SessionOperationLimitExceeded)
            }),
            ({
                let max_operations = if old(ledger).overrides@.contains_key(session_id) {
                    old(ledger).overrides@[session_id].max_operations
                } else {
                    match old(ledger).global_policy {
                        Some(policy) => policy.max_operations,
                        None => 100,
                    }
                };
                let used = if old(ledger).operation_counts@.contains_key(session_id) {
                    old(ledger).operation_counts@[session_id]
                } else {
                    0
                };
                let new_count = (used + 1) as u64;
                let key = StorageKey::OperationCount(session_id);
                let counted = old(ledger).actions@.push(
                    LedgerAction::Write {
                        entry: QuotaEntry::OperationCount { session_id, count: new_count },
                    },
                ).push(LedgerAction::ExtendTtl { key, ledgers: 1_555_200 });
                if max_operations == 0 || used < max_operations {
                    &&& r is Ok
                    &&& used < u64::MAX
                    &&& final(ledger).operation_counts@ == old(ledger).operation_counts@.insert(
                        session_id,
                        new_count,
                    )
                    &&& max_operations == 0 ==> final(ledger).actions@ == counted
                    &&& max_operations > 0 ==> final(ledger).actions@ == counted.push(
                        LedgerAction::Publish {
                            event: QuotaEvent::Used { session_id, new_count, max_operations },
                        },
                    )
                } else {
                    &&& r is Err
                    &&& final(ledger).operation_counts@ == old(ledger).operation_counts@
                    &&& final(ledger).actions@ == old(ledger).actions@
                }
            }),
            final(ledger).timestamp == old(ledger).timestamp,
            final(ledger).global_policy == old(ledger).global_policy,
            final(ledger).overrides@ == old(ledger).overrides@,
            final(ledger).reset_counts@ == old(ledger).reset_counts@,
    {
        let policy: SessionQuotaPolicy = Self::resolve_policy(ledger, session_id);
        if policy.max_operations == 0 {
            Self::increment_counter(ledger, session_id);
            return Ok(());
        }
        let current: u64 = Self::get_operation_count(ledger, session_id);
        if current >= policy.max_operations {
            return Err(ErrorCode::SessionOperationLimitExceeded);
        }
        let new_count: u64 = current + 1;
        ledger.put(QuotaEntry::OperationCount { session_id, count: new_count });
        ledger.publish(
            QuotaEvent::Used { session_id, new_count, max_operations: policy.max_operations },
        );
        Ok(())
    }

    /// The current operation count of `session_id`.
    pub fn get_operation_count(ledger: &QuotaLedger, session_id: u64) -> (r: u64)
        ensures
            r == ledger@.contents.operations_used(session_id),
            ledger.operation_counts@.contains_key(session_id) ==> r
                == ledger.operation_counts@[session_id],
            !ledger.operation_counts@.contains_key(session_id) ==> r == 0,
    {
        match ledger.operation_counts.get(&session_id) {
            Some(count) => *count,
            None => 0,
        }
    }

    /// How often the counter of `session_id` has been reset.
    fn get_reset_count(ledger: &QuotaLedger, session_id: u64) -> (r: u32)
        ensures
            r == ledger@.contents.resets(session_id),
    {
        match ledger.reset_counts.get(&session_id) {
            Some(count) => *count,
            None => 0,
        }
    }

    /// Resets the operation counter of `session_id` to zero and increments its
    /// reset counter. Admin callers must enforce access control before calling.
    ///
    /// This enables recovery flows in which a session that has exceeded its
    /// quota is allowed to continue.
    pub fn reset(ledger: &mut QuotaLedger, session_id: u64)
        ensures
            final(ledger)@ == old(ledger)@.with_reset(session_id),
            ({
                let before = if old(ledger).reset_counts@.contains_key(session_id) {
                    old(ledger).reset_counts@[session_id]
                } else {
                    0
                };
                let resets = if before == u32::MAX {
                    u32::MAX
                } else {
                    (before + 1) as u32
                };
                let count_key = StorageKey::OperationCount(session_id);
                let reset_key = StorageKey::ResetCount(session_id);
                &&& final(ledger).operation_counts@ == old(ledger).operation_counts@.insert(
                    session_id,
                    0,
                )
                &&& final(ledger).reset_counts@ == old(ledger).reset_counts@.insert(
                    session_id,
                    resets,
                )
                &&& final(ledger).actions@ == old(ledger).actions@.push(
                    LedgerAction::Write {
                        entry: QuotaEntry::OperationCount { session_id, count: 0 },
                    },
                ).push(LedgerAction::ExtendTtl { key: count_key, ledgers: 1_555_200 }).push(
                    LedgerAction::Write {
                        entry: QuotaEntry::ResetCount { session_id, count: resets },
                    },
                ).push(LedgerAction::ExtendTtl { key: reset_key, ledgers: 1_555_200 }).push(
                    LedgerAction::Publish { event: QuotaEvent::Reset { session_id, resets } },
                )
            }),
            final(ledger).timestamp == old(ledger).timestamp,
            final(ledger).global_policy == old(ledger).global_policy,
            final(ledger).overrides@ == old(ledger).overrides@,
    {
        ledger.put(QuotaEntry::OperationCount { session_id, count: 0 });
        let resets: u32 = Self::get_reset_count(ledger, session_id).saturating_add(1);
        ledger.put(QuotaEntry::ResetCount { session_id, count: resets });
        ledger.publish(QuotaEvent::Reset { session_id, resets });
    }

    /// A full snapshot of the quota state of `session_id`.
    pub fn get_state(ledger: &QuotaLedger, session_id: u64) -> (r: SessionQuotaState)
        ensures
            r == ledger@.contents.snapshot(session_id),
            r.session_id == session_id,
            ledger.overrides@.contains_key(session_id) ==> r.policy
                == ledger.overrides@[session_id],
            !ledger.overrides@.contains_key(session_id) ==> (ledger.global_policy matches Some(
                policy,
            ) ==> r.policy == policy),
            !ledger.overrides@.contains_key(session_id) && ledger.global_policy is None
                ==> r.policy.max_operations == 100 && r.policy.updated_at == 0,
            ledger.operation_counts@.contains_key(session_id) ==> r.operations_used
                == ledger.operation_counts@[session_id],
            !ledger.operation_counts@.contains_key(session_id) ==> r.operations_used == 0,
            ledger.reset_counts@.contains_key(session_id) ==> r.reset_count
                == ledger.reset_counts@[session_id],
            !ledger.reset_counts@.contains_key(session_id) ==> r.reset_count == 0,
            r.policy.max_operations == 0 ==> r.operations_remaining == u64::MAX
                && !r.is_exhausted,
            r.policy.max_operations > 0 && r.operations_used < r.policy.max_operations
                ==> r.operations_remaining == r.policy.max_operations - r.operations_used
                && !r.is_exhausted,
            r.policy.max_operations > 0 && r.operations_used >= r.policy.max_operations
                ==> r.operations_remaining == 0 && r.is_exhausted,
    {
        let policy: SessionQuotaPolicy = Self::resolve_policy(ledger, session_id);
        let operations_used: u64 = Self::get_operation_count(ledger, session_id);
        let reset_count: u32 = Self::get_reset_count(ledger, session_id);
        let (operations_remaining, is_exhausted): (u64, bool) = if policy.max_operations == 0 {
            (u64::MAX, false)
        } else {
            let remaining: u64 = policy.max_operations.saturating_sub(operations_used);
            (remaining, operations_used >= policy.max_operations)
        };
        SessionQuotaState {
            session_id,
            policy,
            operations_used,
            operations_remaining,
            reset_count,
            is_exhausted,
        }
    }

    /// Increments the counter without checking the policy.
    fn increment_counter(ledger: &mut QuotaLedger, session_id: u64)
        requires
            old(ledger)@.contents.operations_used(session_id) < u64::MAX,
        ensures
            final(ledger)@ == old(ledger)@.with_count(
                session_id,
                (old(ledger)@.contents.operations_used(session_id) + 1) as u64,
            ),
    {
        let current: u64 = Self::get_operation_count(ledger, session_id);
        ledger.put(QuotaEntry::OperationCount { session_id, count: current + 1 });
    }
}

} // verus!
