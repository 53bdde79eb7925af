//! What quota enforcement reads from the ledger and asks of it.
//!
//! A [`QuotaLedger`] holds the quota entries of contract storage and the ledger
//! timestamp as plain values. Every change to it is also recorded as a
//! [`LedgerAction`], in order, so that the host can carry the same changes out
//! on the ledger itself.
//!
//! # Storage keys
//!
//! | Key                | Content                            |
//! |--------------------|------------------------------------|
//! | `SESS_QUOTA`       | Global [`SessionQuotaPolicy`]      |
//! | `(SESS_QUOTA, id)` | Per-session [`SessionQuotaPolicy`] |
//! | `(SOPCNT, id)`     | `u64`, current operation count     |
//! | `(SQRST, id)`      | `u32`, number of quota resets      |

use crate::session_quota::SessionQuotaPolicy;
use std::collections::BTreeMap;
use vstd::prelude::*;

verus! {

// ---------------------------------------------------------------------------
// Keys, values and actions
// ---------------------------------------------------------------------------

/// How long entries under instance storage are kept, in ledgers.
pub const INSTANCE_TTL: u32 = 518_400;

/// How long entries under persistent storage are kept, in ledgers.
pub const PERSISTENT_TTL: u32 = 1_555_200;

/// The part of contract storage in which an entry lives.
#[derive(Clone, Copy, Debug, PartialEq, Eq, Structural)]
pub enum Durability {
    /// Lives and expires with the contract instance.
    Instance,
    /// Has a lifetime of its own.
    Persistent,
}

/// Where a quota entry is stored.
#[derive(Clone, Copy, Debug, PartialEq, Eq, Structural)]
pub enum StorageKey {
    /// The global quota policy.
    GlobalPolicy,
    /// The quota policy override of a session.
    SessionPolicy(u64),
    /// The operation counter of a session.
    OperationCount(u64),
    /// The reset counter of a session.
    ResetCount(u64),
}

impl StorageKey {
    /// The characters of the key's symbol.
    pub open spec fn symbol_text(self) -> Seq<char> {
        match self {
            StorageKey::GlobalPolicy => "SESS_QUOTA"@,
            StorageKey::SessionPolicy(_) => "SESS_QUOTA"@,
            StorageKey::OperationCount(_) => "SOPCNT"@,
            StorageKey::ResetCount(_) => "SQRST"@,
        }
    }

    /// The session that the key belongs to.
    pub open spec fn session(self) -> Option<u64> {
        match self {
            StorageKey::GlobalPolicy => None,
            StorageKey::SessionPolicy(id) => Some(id),
            StorageKey::OperationCount(id) => Some(id),
            StorageKey::ResetCount(id) => Some(id),
        }
    }

    /// The part of storage in which the key's entry lives.
    pub open spec fn place(self) -> Durability {
        match self {
            StorageKey::GlobalPolicy => Durability::Instance,
            _ => Durability::Persistent,
        }
    }

    /// How long the key's entry is kept after a write.
    pub open spec fn lifetime(self) -> u32 {
        match self.place() {
            Durability::Instance => INSTANCE_TTL,
            Durability::Persistent => PERSISTENT_TTL,
        }
    }

    /// The symbol of the key.
    pub fn symbol(&self) -> (r: &'static str)
        ensures
            r@ == self.symbol_text(),
            self is GlobalPolicy || self is SessionPolicy ==> r@ == "SESS_QUOTA"@,
            self is OperationCount ==> r@ == "SOPCNT"@,
            self is ResetCount ==> r@ == "SQRST"@,
    {
        match self {
            StorageKey::GlobalPolicy => "SESS_QUOTA",
            StorageKey::SessionPolicy(_) => "SESS_QUOTA",
            StorageKey::OperationCount(_) => "SOPCNT",
            StorageKey::ResetCount(_) => "SQRST",
        }
    }

    /// The session ID that stands beside the symbol; a key without one is the
    /// bare symbol.
    pub fn session_id(&self) -> (r: Option<u64>)
        ensures
            r == self.session(),
            self is GlobalPolicy ==> r is None,
            *self matches StorageKey::SessionPolicy(id) ==> r == Some(id),
            *self matches StorageKey::OperationCount(id) ==> r == Some(id),
            *self matches StorageKey::ResetCount(id) ==> r == Some(id),
    {
        match self {
            StorageKey::GlobalPolicy => None,
            StorageKey::SessionPolicy(id) => Some(*id),
            StorageKey::OperationCount(id) => Some(*id),
            StorageKey::ResetCount(id) => Some(*id),
        }
    }

    /// The part of storage in which the key's entry lives.
    pub fn durability(&self) -> (r: Durability)
        ensures
            r == self.place(),
            self is GlobalPolicy <==> r is Instance,
    {
        match self {
            StorageKey::GlobalPolicy => Durability::Instance,
            _ => Durability::Persistent,
        }
    }
}

/// A quota entry: its key and what it holds.
#[derive(Clone, Copy, Debug, PartialEq, Eq, Structural)]
pub enum QuotaEntry {
    /// The global quota policy.
    GlobalPolicy { policy: SessionQuotaPolicy },
    /// The quota policy override of a session.
    SessionPolicy { session_id: u64, policy: SessionQuotaPolicy },
    /// The operation counter of a session.
    OperationCount { session_id: u64, count: u64 },
    /// The reset counter of a session.
    ResetCount { session_id: u64, count: u32 },
}

impl QuotaEntry {
    /// Where the entry is stored.
    pub open spec fn address(self) -> StorageKey {
        match self {
            QuotaEntry::GlobalPolicy { .. } => StorageKey::GlobalPolicy,
            QuotaEntry::SessionPolicy { session_id, .. } => StorageKey::SessionPolicy(session_id),
            QuotaEntry::OperationCount { session_id, .. } => StorageKey::OperationCount(
                session_id,
            ),
            QuotaEntry::ResetCount { session_id, .. } => StorageKey::ResetCount(session_id),
        }
    }

    /// Where the entry is stored.
    pub fn key(&self) -> (r: StorageKey)
        ensures
            r == self.address(),
            self is GlobalPolicy ==> r == StorageKey::GlobalPolicy,
            *self matches QuotaEntry::SessionPolicy { session_id, .. } ==> r
                == StorageKey::SessionPolicy(session_id),
            *self matches QuotaEntry::OperationCount { session_id, .. } ==> r
                == StorageKey::OperationCount(session_id),
            *self matches QuotaEntry::ResetCount { session_id, .. } ==> r
                == StorageKey::ResetCount(session_id),
    {
        match *self {
            QuotaEntry::GlobalPolicy { .. } => StorageKey::GlobalPolicy,
            QuotaEntry::SessionPolicy { session_id, .. } => StorageKey::SessionPolicy(session_id),
            QuotaEntry::OperationCount { session_id, .. } => StorageKey::OperationCount(
                session_id,
            ),
            QuotaEntry::ResetCount { session_id, .. } => StorageKey::ResetCount(session_id),
        }
    }
}

/// An event for off-chain monitors.
#[derive(Clone, Copy, Debug, PartialEq, Eq, Structural)]
pub enum QuotaEvent {
    /// A session used one operation of its quota: topics
    /// `(sess_qt, used, session_id)`, data `(new_count, max_operations)`.
    Used { session_id: u64, new_count: u64, max_operations: u64 },
    /// The counter of a session was reset: topics
    /// `(sess_qt, reset, session_id)`, data `resets`.
    Reset { session_id: u64, resets: u32 },
}

/// First topic of every quota event.
pub const EVENT_TOPIC: &'static str = "sess_qt";

impl QuotaEvent {
    /// The characters of the event's second topic.
    pub open spec fn name_text(self) -> Seq<char> {
        match self {
            QuotaEvent::Used { .. } => "used"@,
            QuotaEvent::Reset { .. } => "reset"@,
        }
    }

    /// The session that the event is about.
    pub open spec fn session(self) -> u64 {
        match self {
            QuotaEvent::Used { session_id, .. } => session_id,
            QuotaEvent::Reset { session_id, .. } => session_id,
        }
    }

    /// The topics of the event.
    pub fn topics(&self) -> (r: (&'static str, &'static str, u64))
        ensures
            r.0@ == EVENT_TOPIC@,
            r.0@ == "sess_qt"@,
            r.1@ == self.name_text(),
            r.2 == self.session(),
            *self matches QuotaEvent::Used { session_id, .. } ==> r.1@ == "used"@ && r.2
                == session_id,
            *self matches QuotaEvent::Reset { session_id, .. } ==> r.1@ == "reset"@ && r.2
                == session_id,
    {
        match *self {
            QuotaEvent::Used { session_id, .. } => (EVENT_TOPIC, "used", session_id),
            QuotaEvent::Reset { session_id, .. } => (EVENT_TOPIC, "reset", session_id),
        }
    }
}

/// One step for the host to carry out on the ledger.
#[derive(Clone, Copy, Debug, PartialEq, Eq, Structural)]
pub enum LedgerAction {
    /// Write an entry.
    Write { entry: QuotaEntry },
    /// Delete an entry.
    Delete { key: StorageKey },
    /// Keep an entry for `ledgers` ledgers from now on.
    ExtendTtl { key: StorageKey, ledgers: u32 },
    /// Publish an event.
    Publish { event: QuotaEvent },
}

// ---------------------------------------------------------------------------
// Model
// ---------------------------------------------------------------------------

/// The quota entries of contract storage.
#[verifier::ext_equal]
pub struct QuotaContents {
    pub global_policy: Option<SessionQuotaPolicy>,
    pub overrides: Map<u64, SessionQuotaPolicy>,
    pub operation_counts: Map<u64, u64>,
    pub reset_counts: Map<u64, u32>,
}

impl QuotaContents {
    /// The contents after a write.
    pub open spec fn store(self, entry: QuotaEntry) -> QuotaContents {
        match entry {
            QuotaEntry::GlobalPolicy { policy } => QuotaContents {
                global_policy: Some(policy),
                ..self
            },
            QuotaEntry::SessionPolicy { session_id, policy } => QuotaContents {
                overrides: self.overrides.insert(session_id, policy),
                ..self
            },
            QuotaEntry::OperationCount { session_id, count } => QuotaContents {
                operation_counts: self.operation_counts.insert(session_id, count),
                ..self
            },
            QuotaEntry::ResetCount { session_id, count } => QuotaContents {
                reset_counts: self.reset_counts.insert(session_id, count),
                ..self
            },
        }
    }

    /// The contents after a deletion.
    pub open spec fn erase(self, key: StorageKey) -> QuotaContents {
        match key {
            StorageKey::GlobalPolicy => QuotaContents { global_policy: None, ..self },
            StorageKey::SessionPolicy(id) => QuotaContents {
                overrides: self.overrides.remove(id),
                ..self
            },
            StorageKey::OperationCount(id) => QuotaContents {
                operation_counts: self.operation_counts.remove(id),
                ..self
            },
            StorageKey::ResetCount(id) => QuotaContents {
                reset_counts: self.reset_counts.remove(id),
                ..self
            },
        }
    }

    /// The contents after one action.
    pub open spec fn apply(self, action: LedgerAction) -> QuotaContents {
        match action {
            LedgerAction::Write { entry } => self.store(entry),
            LedgerAction::Delete { key } => self.erase(key),
            _ => self,
        }
    }

    /// The contents after `actions`, carried out in order.
    pub open spec fn replay(self, actions: Seq<LedgerAction>) -> QuotaContents
        decreases actions.len(),
    {
        if actions.len() == 0 {
            self
        } else {
            self.replay(actions.drop_last()).apply(actions.last())
        }
    }
}

/// What a [`QuotaLedger`] says.
#[verifier::ext_equal]
pub struct LedgerView {
    pub timestamp: u64,
    pub contents: QuotaContents,
    pub actions: Seq<LedgerAction>,
}

impl LedgerView {
    /// The ledger after one action.
    pub open spec fn perform(self, action: LedgerAction) -> LedgerView {
        LedgerView {
            timestamp: self.timestamp,
            contents: self.contents.apply(action),
            actions: self.actions.push(action),
        }
    }

    /// The ledger after `entry` was written and its lifetime renewed.
    pub open spec fn put(self, entry: QuotaEntry) -> LedgerView {
        self.perform(LedgerAction::Write { entry }).perform(
            LedgerAction::ExtendTtl { key: entry.address(), ledgers: entry.address().lifetime() },
        )
    }

    /// The ledger after `event` was published.
    pub open spec fn publish(self, event: QuotaEvent) -> LedgerView {
        self.perform(LedgerAction::Publish { event })
    }
}

// ---------------------------------------------------------------------------
// QuotaLedger
// ---------------------------------------------------------------------------

/// The quota entries of contract storage, the ledger timestamp, and the actions
/// that enforcement asks of the host.
#[derive(Clone, Debug)]
pub struct QuotaLedger {
    /// Current ledger timestamp.
    pub timestamp: u64,
    /// Global quota policy, where one has been configured.
    pub global_policy: Option<SessionQuotaPolicy>,
    /// Quota policy overrides by session.
    pub overrides: BTreeMap<u64, SessionQuotaPolicy>,
    /// Operation counters by session.
    pub operation_counts: BTreeMap<u64, u64>,
    /// Reset counters by session.
    pub reset_counts: BTreeMap<u64, u32>,
    /// Actions that the host has yet to carry out, in order.
    pub actions: Vec<LedgerAction>,
}

impl View for QuotaLedger {
    type V = LedgerView;

    open spec fn view(&self) -> LedgerView {
        LedgerView {
            timestamp: self.timestamp,
            contents: QuotaContents {
                global_policy: self.global_policy,
                overrides: self.overrides@,
                operation_counts: self.operation_counts@,
                reset_counts: self.reset_counts@,
            },
            actions: self.actions@,
        }
    }
}

impl QuotaLedger {
    /// A ledger at `timestamp` without any quota entry.
    pub fn new(timestamp: u64) -> (r: Self)
        ensures
            r@ == (LedgerView {
                timestamp,
                contents: QuotaContents {
                    global_policy: None,
                    overrides: Map::empty(),
                    operation_counts: Map::empty(),
                    reset_counts: Map::empty(),
                },
                actions: Seq::empty(),
            }),
            r.timestamp == timestamp,
            r.global_policy is None,
            r.overrides@ == Map::<u64, SessionQuotaPolicy>::empty(),
            r.operation_counts@ == Map::<u64, u64>::empty(),
            r.reset_counts@ == Map::<u64, u32>::empty(),
            r.actions@ == Seq::<LedgerAction>::empty(),
    {
        QuotaLedger {
            timestamp,
            global_policy: None,
            overrides: BTreeMap::new(),
            operation_counts: BTreeMap::new(),
            reset_counts: BTreeMap::new(),
            actions: Vec::new(),
        }
    }

    /// Carries `action` out on the entries and records it.
    pub fn perform(&mut self, action: LedgerAction)
        ensures
            final(self)@ == old(self)@.perform(action),
            final(self).actions@ == old(self).actions@.push(action),
            final(self).timestamp == old(self).timestamp,
            final(self).global_policy == (match action {
                LedgerAction::Write { entry: QuotaEntry::GlobalPolicy { policy } } => Some(policy),
                LedgerAction::Delete { key: StorageKey::GlobalPolicy } => None,
                _ => old(self).global_policy,
            }),
            final(self).overrides@ == (match action {
                LedgerAction::Write { entry: QuotaEntry::SessionPolicy { session_id, policy } } =>
                old(self).overrides@.insert(session_id, policy),
                LedgerAction::Delete { key: StorageKey::SessionPolicy(id) } => old(
                    self,
                ).overrides@.remove(id),
                _ => old(self).overrides@,
            }),
            final(self).operation_counts@ == (match action {
                LedgerAction::Write { entry: QuotaEntry::OperationCount { session_id, count } } =>
                old(self).operation_counts@.insert(session_id, count),
                LedgerAction::Delete { key: StorageKey::OperationCount(id) } => old(
                    self,
                ).operation_counts@.remove(id),
                _ => old(self).operation_counts@,
            }),
            final(self).reset_counts@ == (match action {
                LedgerAction::Write { entry: QuotaEntry::ResetCount { session_id, count } } => old(
                    self,
                ).reset_counts@.insert(session_id, count),
                LedgerAction::Delete { key: StorageKey::ResetCount(id) } => old(
                    self,
                ).reset_counts@.remove(id),
                _ => old(self).reset_counts@,
            }),
    {
        match action {
            LedgerAction::Write { entry } => match entry {
                QuotaEntry::GlobalPolicy { policy } => {
                    self.global_policy = Some(policy);
                },
                QuotaEntry::SessionPolicy { session_id, policy } => {
                    self.overrides.insert(session_id, policy);
                },
                QuotaEntry::OperationCount { session_id, count } => {
                    self.operation_counts.insert(session_id, count);
                },
                QuotaEntry::ResetCount { session_id, count } => {
                    self.reset_counts.insert(session_id, count);
                },
            },
            LedgerAction::Delete { key } => match key {
                StorageKey::GlobalPolicy => {
                    self.global_policy = None;
                },
                StorageKey::SessionPolicy(id) => {
                    self.overrides.remove(&id);
                },
                StorageKey::OperationCount(id) => {
                    self.operation_counts.remove(&id);
                },
                StorageKey::ResetCount(id) => {
                    self.reset_counts.remove(&id);
                },
            },
            LedgerAction::ExtendTtl { .. } => {},
            LedgerAction::Publish { .. } => {},
        }
        self.actions.push(action);
        assert(self@ =~= old(self)@.perform(action));
    }

    /// Writes `entry` and renews its lifetime.
    pub fn put(&mut self, entry: QuotaEntry)
        ensures
            final(self)@ == old(self)@.put(entry),
            final(self).timestamp == old(self).timestamp,
            final(self).global_policy == (match entry {
                QuotaEntry::GlobalPolicy { policy } => Some(policy),
                _ => old(self).global_policy,
            }),
            final(self).overrides@ == (match entry {
                QuotaEntry::SessionPolicy { session_id, policy } => old(self).overrides@.insert(
                    session_id,
                    policy,
                ),
                _ => old(self).overrides@,
            }),
            final(self).operation_counts@ == (match entry {
                QuotaEntry::OperationCount { session_id, count } => old(
                    self,
                ).operation_counts@.insert(session_id, count),
                _ => old(self).operation_counts@,
            }),
            final(self).reset_counts@ == (match entry {
                QuotaEntry::ResetCount { session_id, count } => old(self).reset_counts@.insert(
                    session_id,
                    count,
                ),
                _ => old(self).reset_counts@,
            }),
            final(self).actions@ == old(self).actions@.push(LedgerAction::Write { entry }).push(
                match entry {
                    QuotaEntry::GlobalPolicy { .. } => LedgerAction::ExtendTtl {
                        key: StorageKey::GlobalPolicy,
                        ledgers: 518_400,
                    },
                    QuotaEntry::SessionPolicy { session_id, .. } => LedgerAction::ExtendTtl {
                        key: StorageKey::SessionPolicy(session_id),
                        ledgers: 1_555_200,
                    },
                    QuotaEntry::OperationCount { session_id, .. } => LedgerAction::ExtendTtl {
                        key: StorageKey::OperationCount(session_id),
                        ledgers: 1_555_200,
                    },
                    QuotaEntry::ResetCount { session_id, .. } => LedgerAction::ExtendTtl {
                        key: StorageKey::ResetCount(session_id),
                        ledgers: 1_555_200,
                    },
                },
            ),
    {
        self.perform(LedgerAction::Write { entry });
        let key: StorageKey = entry.key();
        let ledgers: u32 = match key.durability() {
            Durability::Instance => INSTANCE_TTL,
            Durability::Persistent => PERSISTENT_TTL,
        };
        self.perform(LedgerAction::ExtendTtl { key, ledgers });
    }

    /// Publishes `event`.
    pub fn publish(&mut self, event: QuotaEvent)
        ensures
            final(self)@ == old(self)@.publish(event),
            final(self).actions@ == old(self).actions@.push(LedgerAction::Publish { event }),
            final(self).timestamp == old(self).timestamp,
            final(self).global_policy == old(self).global_policy,
            final(self).overrides@ == old(self).overrides@,
            final(self).operation_counts@ == old(self).operation_counts@,
            final(self).reset_counts@ == old(self).reset_counts@,
    {
        self.perform(LedgerAction::Publish { event });
    }
}

} // verus!
