//! Laws of quota enforcement, over the models that the contracts of
//! [`SessionQuotaEnforcer`](crate::session_quota::SessionQuotaEnforcer) use.

use crate::quota_ledger::{LedgerAction, LedgerView, QuotaContents, QuotaEntry, QuotaEvent};
use crate::quota_ledger::StorageKey;
use crate::session_quota;
use crate::session_quota::SessionQuotaPolicy;
use vstd::prelude::*;

verus! {

// ---------------------------------------------------------------------------
// Policies
// ---------------------------------------------------------------------------

/// The policy in force for a session is its override, whatever the global
/// policy is; without one, the global policy; without that, 100 operations.
pub proof fn law_policy_in_force(contents: QuotaContents, session_id: u64)
    ensures
        contents.overrides.contains_key(session_id) ==> contents.effective_policy(session_id)
            == contents.overrides[session_id] && contents.session_override(session_id) == Some(
            contents.overrides[session_id],
        ),
        !contents.overrides.contains_key(session_id) ==> contents.session_override(
            session_id,
        ) is None && contents.effective_policy(session_id) == contents.effective_global(),
        contents.global_policy matches Some(policy) ==> contents.effective_global() == policy,
        contents.global_policy is None ==> contents.effective_global().max_operations == 100
            && contents.effective_global().updated_at == 0,
{
}

/// The limit is that of the policy in force and no other, zero meaning none: a
/// request is admitted exactly if that is zero or the count lies below it.
pub proof fn law_policy_in_force_decides(contents: QuotaContents, session_id: u64)
    ensures
        ({
            let max = contents.effective_policy(session_id).max_operations;
            let used = contents.operations_used(session_id);
            &&& contents.limit(session_id) is None <==> max == 0
            &&& max > 0 ==> contents.limit(session_id) == Some(max)
            &&& contents.admits(session_id) <==> max == 0 || used < max
        }),
{
}

/// The counters of a session are those stored for it, and 0 where none is.
pub proof fn law_counters_are_those_stored(contents: QuotaContents, session_id: u64)
    ensures
        contents.operation_counts.contains_key(session_id) ==> contents.operations_used(session_id)
            == contents.operation_counts[session_id],
        !contents.operation_counts.contains_key(session_id) ==> contents.operations_used(
            session_id,
        ) == 0,
        contents.reset_counts.contains_key(session_id) ==> contents.resets(session_id)
            == contents.reset_counts[session_id],
        !contents.reset_counts.contains_key(session_id) ==> contents.resets(session_id) == 0,
{
}

/// Under an override the global policy has no say, be it higher or lower: the
/// session is admitted exactly as the override alone decides, and asking with
/// any other global policy in place gives the same answer.
pub proof fn law_override_decides_alone(
    ledger: LedgerView,
    session_id: u64,
    policy: SessionQuotaPolicy,
    global: SessionQuotaPolicy,
)
    ensures
        ({
            let with = ledger.with_override(session_id, policy);
            let other = ledger.with_global_policy(global).with_override(session_id, policy);
            let used = ledger.contents.operations_used(session_id);
            &&& with.contents.admits(session_id) <==> policy.max_operations == 0 || used
                < policy.max_operations
            &&& other.contents.admits(session_id) == with.contents.admits(session_id)
            &&& other.contents.snapshot(session_id) == with.contents.snapshot(session_id)
            &&& with.with_global_policy(global).contents.snapshot(session_id)
                == with.contents.snapshot(session_id)
            &&& with.contents.snapshot(session_id).policy.max_operations == policy.max_operations
        }),
{
}

/// A global policy reads back with its limit and the time at which it was
/// written, holds for every session without an override, and leaves overrides
/// and counters alone.
pub proof fn law_global_policy_reads_back(
    ledger: LedgerView,
    policy: SessionQuotaPolicy,
    session_id: u64,
)
    ensures
        ({
            let before = ledger.contents;
            let after = ledger.with_global_policy(policy).contents;
            &&& after.effective_global() == policy.written_at(ledger.timestamp)
            &&& after.session_override(session_id) == before.session_override(session_id)
            &&& after.effective_policy(session_id) == match before.session_override(session_id) {
                Some(own) => own,
                None => policy.written_at(ledger.timestamp),
            }
            &&& after.operations_used(session_id) == before.operations_used(session_id)
            &&& after.resets(session_id) == before.resets(session_id)
        }),
{
}

/// An override wins over the global policy for its session and for no other:
/// the policies of the other sessions, the global policy and all counters stay
/// as they were.
pub proof fn law_override_wins_for_its_session_only(
    ledger: LedgerView,
    session_id: u64,
    policy: SessionQuotaPolicy,
    other: u64,
)
    ensures
        ({
            let before = ledger.contents;
            let after = ledger.with_override(session_id, policy).contents;
            &&& after.effective_policy(session_id) == policy.written_at(ledger.timestamp)
            &&& other != session_id ==> after.effective_policy(other) == before.effective_policy(
                other,
            )
            &&& after.effective_global() == before.effective_global()
            &&& after.operations_used(other) == before.operations_used(other)
            &&& after.resets(other) == before.resets(other)
        }),
{
}

/// Clearing the override of a session makes the global policy hold for it
/// again, and changes nothing else.
pub proof fn law_clear_reverts_to_global(ledger: LedgerView, session_id: u64, other: u64)
    ensures
        ({
            let before = ledger.contents;
            let after = ledger.without_override(session_id).contents;
            &&& after.session_override(session_id) is None
            &&& after.effective_policy(session_id) == before.effective_global()
            &&& other != session_id ==> after.effective_policy(other) == before.effective_policy(
                other,
            )
            &&& after.effective_global() == before.effective_global()
            &&& after.operations_used(other) == before.operations_used(other)
            &&& after.resets(other) == before.resets(other)
        }),
{
}

/// Clearing an override undoes setting it on a session that had none.
pub proof fn law_clear_undoes_override(
    ledger: LedgerView,
    session_id: u64,
    policy: SessionQuotaPolicy,
)
    requires
        ledger.contents.session_override(session_id) is None,
    ensures
        ledger.with_override(session_id, policy).without_override(session_id).contents
            == ledger.contents,
{
    let there = ledger.with_override(session_id, policy);
    let back = there.without_override(session_id).contents;
    assert(back.overrides =~= ledger.contents.overrides);
    assert(back =~= ledger.contents);
}

/// Clearing twice is clearing once.
pub proof fn law_clear_is_idempotent(ledger: LedgerView, session_id: u64)
    ensures
        ledger.without_override(session_id).without_override(session_id)
            == ledger.without_override(session_id),
{
}

// ---------------------------------------------------------------------------
// Enforcement
// ---------------------------------------------------------------------------

/// A session asks on its own account: its answer depends on its policy and its
/// count, and on nothing that is stored for another session.
pub proof fn law_other_sessions_have_no_say(
    a: QuotaContents,
    b: QuotaContents,
    session_id: u64,
)
    requires
        a.effective_policy(session_id) == b.effective_policy(session_id),
        a.operations_used(session_id) == b.operations_used(session_id),
    ensures
        a.admits(session_id) == b.admits(session_id),
        a.operations_remaining(session_id) == b.operations_remaining(session_id),
        a.resets(session_id) == b.resets(session_id) ==> a.snapshot(session_id) == b.snapshot(
            session_id,
        ),
{
}

/// An admitted request stores the next count and keeps it alive; under a limit
/// it also announces that count and the limit.
pub proof fn law_admitted_request_is_stored_and_announced(ledger: LedgerView, session_id: u64)
    requires
        ledger.contents.admits(session_id),
        ledger.contents.effective_policy(session_id).max_operations == 0
            ==> ledger.contents.operations_used(session_id) < u64::MAX,
    ensures
        ({
            let max_operations = ledger.contents.effective_policy(session_id).max_operations;
            let new_count = (ledger.contents.operations_used(session_id) + 1) as u64;
            let after = ledger.attempt(session_id);
            let counted = ledger.actions.push(
                LedgerAction::Write {
                    entry: QuotaEntry::OperationCount { session_id, count: new_count },
                },
            ).push(
                LedgerAction::ExtendTtl {
                    key: StorageKey::OperationCount(session_id),
                    ledgers: 1_555_200,
                },
            );
            &&& after.contents.operation_counts == ledger.contents.operation_counts.insert(
                session_id,
                new_count,
            )
            &&& after.contents.global_policy == ledger.contents.global_policy
            &&& after.contents.overrides == ledger.contents.overrides
            &&& after.contents.reset_counts == ledger.contents.reset_counts
            &&& max_operations == 0 ==> after.actions == counted
            &&& max_operations > 0 ==> after.actions == counted.push(
                LedgerAction::Publish {
                    event: QuotaEvent::Used { session_id, new_count, max_operations },
                },
            )
        }),
{
}

/// The ledger after a session asked for `n` operations in a row.
pub open spec fn attempts(ledger: LedgerView, session_id: u64, n: nat) -> LedgerView
    decreases n,
{
    if n == 0 {
        ledger
    } else {
        attempts(ledger, session_id, (n - 1) as nat).attempt(session_id)
    }
}

/// A request changes the counter of its session by one if it is admitted, and
/// no policy, reset counter or counter of another session in any case.
pub proof fn law_request_touches_its_session_only(
    ledger: LedgerView,
    session_id: u64,
    other: u64,
)
    requires
        ledger.contents.limit(session_id) is None ==> ledger.contents.operations_used(session_id)
            < u64::MAX,
    ensures
        ({
            let before = ledger.contents;
            let after = ledger.attempt(session_id).contents;
            &&& after.operations_used(session_id) == before.operations_used(session_id) + (
            if before.admits(session_id) {
                1int
            } else {
                0int
            })
            &&& other != session_id ==> after.operations_used(other) == before.operations_used(
                other,
            )
            &&& after.effective_policy(other) == before.effective_policy(other)
            &&& after.resets(other) == before.resets(other)
            &&& ledger.attempt(session_id).timestamp == ledger.timestamp
        }),
{
}

/// A refused request changes nothing at all.
pub proof fn law_refusal_changes_nothing(ledger: LedgerView, session_id: u64)
    requires
        !ledger.contents.admits(session_id),
    ensures
        ledger.attempt(session_id) == ledger,
{
}

/// Under a limit, `n` requests in a row are admitted as long as the limit is
/// not reached, and are refused from there on: the counter grows to the limit
/// and never beyond, and the request that follows is admitted exactly if fewer
/// than the remaining operations have been asked for.
pub proof fn law_limit_is_enforced(ledger: LedgerView, session_id: u64, n: nat)
    requires
        ledger.contents.limit(session_id) is Some,
    ensures
        ({
            let start = ledger.contents;
            let used = start.operations_used(session_id);
            let remaining = start.operations_remaining(session_id);
            let end = attempts(ledger, session_id, n).contents;
            &&& end.operations_used(session_id) == used + (if n < remaining {
                n as int
            } else {
                remaining as int
            })
            &&& end.limit(session_id) == start.limit(session_id)
            &&& end.admits(session_id) <==> n < remaining
        }),
    decreases n,
{
    if n > 0 {
        law_limit_is_enforced(ledger, session_id, (n - 1) as nat);
    }
}

/// The ledger after the sessions `ids` asked for an operation each, in order.
pub open spec fn requests(ledger: LedgerView, ids: Seq<u64>) -> LedgerView
    decreases ids.len(),
{
    if ids.len() == 0 {
        ledger
    } else {
        requests(ledger, ids.drop_last()).attempt(ids.last())
    }
}

/// How often `session_id` occurs among `ids`.
pub open spec fn occurrences(ids: Seq<u64>, session_id: u64) -> nat
    decreases ids.len(),
{
    if ids.len() == 0 {
        0
    } else {
        occurrences(ids.drop_last(), session_id) + (if ids.last() == session_id {
            1nat
        } else {
            0nat
        })
    }
}

/// What other sessions ask for in between makes no difference: among any
/// requests, those of a limited session are admitted until its own limit is
/// reached, and refused from there on.
pub proof fn law_limit_is_enforced_among_sessions(
    ledger: LedgerView,
    ids: Seq<u64>,
    session_id: u64,
)
    requires
        ledger.contents.limit(session_id) is Some,
    ensures
        ({
            let start = ledger.contents;
            let used = start.operations_used(session_id);
            let remaining = start.operations_remaining(session_id);
            let n = occurrences(ids, session_id);
            let end = requests(ledger, ids).contents;
            &&& end.operations_used(session_id) == used + (if n < remaining {
                n as int
            } else {
                remaining as int
            })
            &&& end.limit(session_id) == start.limit(session_id)
            &&& end.admits(session_id) <==> n < remaining
        }),
    decreases ids.len(),
{
    if ids.len() > 0 {
        law_limit_is_enforced_among_sessions(ledger, ids.drop_last(), session_id);
    }
}

/// A session that is within its limit never gets past it, whatever it asks for.
pub proof fn law_count_stays_within_limit(ledger: LedgerView, session_id: u64, n: nat)
    requires
        ledger.contents.limit(session_id) matches Some(max) && ledger.contents.operations_used(
            session_id,
        ) <= max,
    ensures
        attempts(ledger, session_id, n).contents.limit(session_id) matches Some(max)
            && attempts(ledger, session_id, n).contents.operations_used(session_id) <= max,
{
    law_limit_is_enforced(ledger, session_id, n);
}

/// An unlimited session is always admitted, and every operation is counted, as
/// far as the counter reaches.
pub proof fn law_unlimited_is_never_refused(ledger: LedgerView, session_id: u64, n: nat)
    requires
        ledger.contents.limit(session_id) is None,
        ledger.contents.operations_used(session_id) + n <= u64::MAX,
    ensures
        ({
            let end = attempts(ledger, session_id, n).contents;
            &&& end.operations_used(session_id) == ledger.contents.operations_used(session_id) + n
            &&& end.limit(session_id) is None
            &&& end.admits(session_id)
        }),
    decreases n,
{
    if n > 0 {
        law_unlimited_is_never_refused(ledger, session_id, (n - 1) as nat);
    }
}

// ---------------------------------------------------------------------------
// Reset
// ---------------------------------------------------------------------------

/// A reset zeroes the counter of its session and counts itself, unless the
/// reset counter has reached its largest value; policies and other sessions
/// stay as they were.
pub proof fn law_reset_zeroes_and_is_recorded(ledger: LedgerView, session_id: u64, other: u64)
    ensures
        ({
            let before = ledger.contents;
            let after = ledger.with_reset(session_id).contents;
            &&& after.operations_used(session_id) == 0
            &&& before.resets(session_id) < u32::MAX ==> after.resets(session_id)
                == before.resets(session_id) + 1
            &&& before.resets(session_id) == u32::MAX ==> after.resets(session_id) == u32::MAX
            &&& after.admits(session_id)
            &&& after.effective_policy(other) == before.effective_policy(other)
            &&& other != session_id ==> after.operations_used(other) == before.operations_used(
                other,
            )
            &&& other != session_id ==> after.resets(other) == before.resets(other)
        }),
{
}

/// After a reset a limited session accepts as many further operations as its
/// limit says, and then no more.
pub proof fn law_reset_frees_the_whole_quota(ledger: LedgerView, session_id: u64, n: nat)
    requires
        ledger.contents.limit(session_id) is Some,
    ensures
        ({
            let max = ledger.contents.limit(session_id)->0;
            let end = attempts(ledger.with_reset(session_id), session_id, n).contents;
            &&& end.operations_used(session_id) == (if n < max {
                n as int
            } else {
                max as int
            })
            &&& end.admits(session_id) <==> n < max
        }),
{
    law_reset_zeroes_and_is_recorded(ledger, session_id, session_id);
    law_limit_is_enforced(ledger.with_reset(session_id), session_id, n);
}

// ---------------------------------------------------------------------------
// Snapshot
// ---------------------------------------------------------------------------

/// A snapshot reports the session that was asked about, its policy in force, its
/// count and its resets, limited or not.
pub proof fn law_snapshot_reports_what_is_stored(contents: QuotaContents, session_id: u64)
    ensures
        contents.snapshot(session_id).session_id == session_id,
        contents.snapshot(session_id).policy == contents.effective_policy(session_id),
        contents.snapshot(session_id).operations_used == contents.operations_used(session_id),
        contents.snapshot(session_id).reset_count == contents.resets(session_id),
{
}

/// Every admitted request shows in the next snapshot as one operation more, and
/// one fewer remaining under a limit; a refused one leaves the snapshot as it
/// was; a reset shows as no operation used and the whole limit remaining.
pub proof fn law_snapshots_follow_requests(ledger: LedgerView, session_id: u64)
    requires
        ledger.contents.effective_policy(session_id).max_operations == 0
            ==> ledger.contents.operations_used(session_id) < u64::MAX,
    ensures
        ({
            let before = ledger.contents.snapshot(session_id);
            let after = ledger.attempt(session_id).contents.snapshot(session_id);
            let fresh = ledger.with_reset(session_id).contents.snapshot(session_id);
            let max = before.policy.max_operations;
            &&& !before.is_exhausted ==> after.operations_used == before.operations_used + 1
            &&& !before.is_exhausted && max > 0 ==> after.operations_remaining
                == before.operations_remaining - 1
            &&& before.is_exhausted ==> after == before
            &&& after.policy == before.policy
            &&& after.reset_count == before.reset_count
            &&& fresh.operations_used == 0
            &&& max > 0 ==> fresh.operations_remaining == max
            &&& !fresh.is_exhausted
            &&& fresh.policy == before.policy
            &&& before.reset_count < u32::MAX ==> fresh.reset_count == before.reset_count + 1
        }),
{
}

/// A snapshot is exhausted exactly if the next request is refused and, under a
/// limit, exactly if nothing remains; what is used and what remains add up to a
/// limit that has not been passed.
pub proof fn law_snapshot_foretells(contents: QuotaContents, session_id: u64)
    ensures
        ({
            let state = contents.snapshot(session_id);
            let max = state.policy.max_operations;
            &&& state.is_exhausted <==> !contents.admits(session_id)
            &&& state.is_exhausted <==> state.operations_remaining == 0
            &&& max == 0 ==> state.operations_remaining == u64::MAX
            &&& max > 0 && state.operations_used <= max ==> state.operations_used
                + state.operations_remaining == max
            &&& max > 0 && state.operations_used > max ==> state.operations_remaining == 0
        }),
{
}

// ---------------------------------------------------------------------------
// Storage
// ---------------------------------------------------------------------------

/// No two keys share a place in storage: their symbols or the session IDs
/// beside them differ.
pub proof fn law_keys_do_not_collide(a: StorageKey, b: StorageKey)
    requires
        a != b,
    ensures
        a.symbol_text() != b.symbol_text() || a.session() != b.session(),
{
    reveal_strlit("SESS_QUOTA");
    reveal_strlit("SOPCNT");
    reveal_strlit("SQRST");
    assert("SESS_QUOTA"@.len() == 10 && "SOPCNT"@.len() == 6 && "SQRST"@.len() == 5);
}

/// Each action does to the entries what it says, to one entry, and is recorded
/// last.
pub proof fn law_actions_do_what_they_say(
    ledger: LedgerView,
    session_id: u64,
    policy: SessionQuotaPolicy,
    operations: u64,
    resets: u32,
    action: LedgerAction,
)
    ensures
        ({
            let c = ledger.contents;
            let write = |entry: QuotaEntry| c.apply(LedgerAction::Write { entry });
            let delete = |key: StorageKey| c.apply(LedgerAction::Delete { key });
            &&& write(QuotaEntry::GlobalPolicy { policy }) == (QuotaContents {
                global_policy: Some(policy),
                ..c
            })
            &&& write(QuotaEntry::SessionPolicy { session_id, policy }) == (QuotaContents {
                overrides: c.overrides.insert(session_id, policy),
                ..c
            })
            &&& write(QuotaEntry::OperationCount { session_id, count: operations }) == (
            QuotaContents {
                operation_counts: c.operation_counts.insert(session_id, operations),
                ..c
            })
            &&& write(QuotaEntry::ResetCount { session_id, count: resets }) == (QuotaContents {
                reset_counts: c.reset_counts.insert(session_id, resets),
                ..c
            })
            &&& delete(StorageKey::SessionPolicy(session_id)) == (QuotaContents {
                overrides: c.overrides.remove(session_id),
                ..c
            })
            &&& action is ExtendTtl || action is Publish ==> c.apply(action) == c
            &&& ledger.perform(action).contents == c.apply(action)
            &&& ledger.perform(action).actions == ledger.actions.push(action)
            &&& ledger.perform(action).timestamp == ledger.timestamp
        }),
{
}

/// The actions that a ledger has recorded lead from the contents `start` to the
/// contents that it has.
pub open spec fn in_step(ledger: LedgerView, start: QuotaContents) -> bool {
    start.replay(ledger.actions) == ledger.contents
}

/// Performing an action keeps the recorded actions and the contents in step.
proof fn lemma_perform_stays_in_step(
    ledger: LedgerView,
    action: LedgerAction,
    start: QuotaContents,
)
    requires
        in_step(ledger, start),
    ensures
        in_step(ledger.perform(action), start),
{
    assert(ledger.actions.push(action).drop_last() =~= ledger.actions);
}

/// Putting an entry keeps the recorded actions and the contents in step.
proof fn lemma_put_stays_in_step(ledger: LedgerView, entry: QuotaEntry, start: QuotaContents)
    requires
        in_step(ledger, start),
    ensures
        in_step(ledger.put(entry), start),
{
    let key = entry.address();
    let write = LedgerAction::Write { entry };
    let extend = LedgerAction::ExtendTtl { key, ledgers: key.lifetime() };
    lemma_perform_stays_in_step(ledger, write, start);
    lemma_perform_stays_in_step(ledger.perform(write), extend, start);
}

/// A ledger that has recorded nothing is in step with its own contents.
pub proof fn law_fresh_ledger_is_in_step(ledger: LedgerView)
    requires
        ledger.actions.len() == 0,
    ensures
        in_step(ledger, ledger.contents),
{
}

/// Whatever enforcement does, carrying the recorded actions out in order gives
/// the contents that the ledger has.
pub proof fn law_actions_replay_to_contents(
    ledger: LedgerView,
    start: QuotaContents,
    session_id: u64,
    policy: SessionQuotaPolicy,
)
    requires
        in_step(ledger, start),
    ensures
        in_step(ledger.with_global_policy(policy), start),
        in_step(ledger.with_override(session_id, policy), start),
        in_step(ledger.without_override(session_id), start),
        in_step(ledger.attempt(session_id), start),
        in_step(ledger.with_reset(session_id), start),
{
    let written = policy.written_at(ledger.timestamp);
    lemma_put_stays_in_step(ledger, QuotaEntry::GlobalPolicy { policy: written }, start);
    lemma_put_stays_in_step(
        ledger,
        QuotaEntry::SessionPolicy { session_id, policy: written },
        start,
    );
    lemma_perform_stays_in_step(
        ledger,
        LedgerAction::Delete { key: StorageKey::SessionPolicy(session_id) },
        start,
    );

    let new_count = (ledger.contents.operations_used(session_id) + 1) as u64;
    let max_operations = ledger.contents.effective_policy(session_id).max_operations;
    let used = QuotaEvent::Used { session_id, new_count, max_operations };
    lemma_put_stays_in_step(
        ledger,
        QuotaEntry::OperationCount { session_id, count: new_count },
        start,
    );
    lemma_perform_stays_in_step(
        ledger.with_count(session_id, new_count),
        LedgerAction::Publish { event: used },
        start,
    );

    let resets = session_quota::next_reset_count(ledger.contents.resets(session_id));
    let recorded = QuotaEntry::ResetCount { session_id, count: resets };
    let zeroed = ledger.with_count(session_id, 0);
    lemma_put_stays_in_step(ledger, QuotaEntry::OperationCount { session_id, count: 0 }, start);
    lemma_put_stays_in_step(zeroed, recorded, start);
    lemma_perform_stays_in_step(
        zeroed.put(recorded),
        LedgerAction::Publish { event: QuotaEvent::Reset { session_id, resets } },
        start,
    );
}

} // verus!
