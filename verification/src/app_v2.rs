//! The epoch-based orchestrator: records are stored as they arrive, and once
//! an epoch's interval has passed every namespace seen during the epoch is
//! committed at the epoch's end time.

use vstd::prelude::*;

use crate::commit::commit_all;
use crate::commit::commit_namespace_records;
use crate::commit::CommitState;
use crate::commitment_registry::CommitmentRegistryVariant;
use crate::config::BaseConfig;
use crate::proof_registry::ProofRegistryVariant;
use crate::storage::Storage;
use crate::types::IncomingRecord;
use crate::types::Namespace;

verus! {

/// Epoch phase for the commit cycle.
#[derive(Debug, Clone, Copy, PartialEq, Eq, Structural)]
pub enum EpochPhase {
    /// Waiting for the next commit window.
    Pending,
    /// Actively committing batches.
    Commit,
}

/// The namespaces of `s`, as plain values.
pub open spec fn namespaces_view(s: Seq<Namespace>) -> Seq<Seq<u8>> {
    s.map_values(|n: Namespace| n@)
}

/// `s` with `ns` added at the end unless it is already there.
pub open spec fn insert_namespace(s: Seq<Seq<u8>>, ns: Seq<u8>) -> Seq<Seq<u8>> {
    if s.contains(ns) {
        s
    } else {
        s.push(ns)
    }
}

/// Whether a commit is due at `now` for an epoch that started at `start`:
/// at least `interval` seconds have passed (none when `now` is before `start`).
pub open spec fn commit_due(now: u64, start: u64, interval: u64) -> bool {
    (if now >= start { now - start } else { 0 }) >= interval
}

/// Adds `ns` to `list` unless it is already there.
pub(crate) fn note_namespace(list: &mut Vec<Namespace>, ns: &Namespace)
    ensures
        namespaces_view(final(list)@) == insert_namespace(namespaces_view(old(list)@), ns@),
{
    let ghost v = namespaces_view(list@);
    let mut i: usize = 0;
    while i < list.len()
        invariant
            i <= list@.len(),
            v == namespaces_view(list@),
            list@ == old(list)@,
            forall|j: int| 0 <= j < i ==> v[j] != ns@,
        decreases list@.len() - i,
    {
        if crate::bytes::eq32(&list[i], ns) {
            assert(v[i as int] == ns@);
            assert(v.contains(ns@));
            return;
        }
        i += 1;
    }
    assert(!v.contains(ns@));
    list.push(*ns);
    assert(namespaces_view(list@) =~= v.push(ns@));
}

/// A copy of a list of namespaces.
pub(crate) fn copy_namespaces(v: &Vec<Namespace>) -> (r: Vec<Namespace>)
    ensures
        r@ == v@,
{
    let mut r: Vec<Namespace> = Vec::new();
    let mut i: usize = 0;
    while i < v.len()
        invariant
            i <= v@.len(),
            r@ == v@.subrange(0, i as int),
        decreases v@.len() - i,
    {
        r.push(v[i]);
        i += 1;
        assert(r@ =~= v@.subrange(0, i as int));
    }
    assert(v@.subrange(0, i as int) =~= v@);
    r
}

/// The epoch-based orchestrator.
pub struct AppV2 {
    /// Where batch commitments go.
    pub commitment_registry: CommitmentRegistryVariant,
    /// Where proofs go.
    pub proof_registry: ProofRegistryVariant,
    /// The settings, among them the epoch length and the accumulator type.
    pub config: BaseConfig,
    /// The record store.
    pub storage: Storage,
    /// Start time of the current epoch (unix seconds).
    pub epoch_start_ts: u64,
    /// The namespaces seen in the current epoch, each once, in first-seen order.
    pub active_namespaces: Vec<Namespace>,
}

impl AppV2 {
    /// Start time of the current epoch.
    pub open spec fn epoch_start(&self) -> u64 {
        self.epoch_start_ts
    }

    /// The namespaces seen in the current epoch, in first-seen order.
    pub open spec fn active(&self) -> Seq<Seq<u8>> {
        namespaces_view(self.active_namespaces@)
    }

    /// The store and registry, as plain values.
    pub open spec fn commit_state(&self) -> CommitState {
        CommitState { storage: self.storage@, registry: self.commitment_registry@ }
    }

    /// An orchestrator whose first epoch starts at `epoch_start`, with no
    /// namespace seen yet.
    pub fn with_epoch_start(
        commitment_registry: CommitmentRegistryVariant,
        proof_registry: ProofRegistryVariant,
        config: BaseConfig,
        storage: Storage,
        epoch_start: u64,
    ) -> (app: Self)
        ensures
            app.epoch_start() == epoch_start,
            app.active() == Seq::<Seq<u8>>::empty(),
            app.storage@ == storage@,
            app.commitment_registry@ == commitment_registry@,
            app.config == config,
    {
        let app = AppV2 {
            commitment_registry,
            proof_registry,
            config,
            storage,
            epoch_start_ts: epoch_start,
            active_namespaces: Vec::new(),
        };
        assert(app.active() =~= Seq::<Seq<u8>>::empty());
        app
    }

    /// An orchestrator whose first epoch starts now, with no namespace seen yet.
    pub fn new(
        commitment_registry: CommitmentRegistryVariant,
        proof_registry: ProofRegistryVariant,
        config: BaseConfig,
        storage: Storage,
    ) -> (app: Self)
        ensures
            app.active() == Seq::<Seq<u8>>::empty(),
            app.storage@ == storage@,
            app.commitment_registry@ == commitment_registry@,
            app.config == config,
    {
        let now = Self::now_secs();
        Self::with_epoch_start(commitment_registry, proof_registry, config, storage, now)
    }

    /// Current unix time in seconds, as the system clock gives it; zero when
    /// the clock reads before 1970.
    pub fn now_secs() -> u64 {
        crate::clock::unix_time_secs()
    }

    /// Start time of the current epoch.
    pub fn epoch_start_ts(&self) -> (t: u64)
        ensures
            t == self.epoch_start(),
    {
        self.epoch_start_ts
    }

    /// The namespaces seen in the current epoch, in first-seen order.
    pub fn active_namespaces(&self) -> (r: Vec<Namespace>)
        ensures
            namespaces_view(r@) == self.active(),
    {
        copy_namespaces(&self.active_namespaces)
    }

    /// Stores a record and notes its namespace as seen in this epoch.
    pub fn handle_incoming_record(&mut self, record: IncomingRecord) -> (res: Result<(), ()>)
        ensures
            res is Ok,
            final(self).storage@ == old(self).storage@.push(record),
            final(self).active() == insert_namespace(old(self).active(), record.namespace@),
            final(self).epoch_start() == old(self).epoch_start(),
            final(self).commitment_registry@ == old(self).commitment_registry@,
            final(self).proof_registry == old(self).proof_registry,
            final(self).config == old(self).config,
    {
        note_namespace(&mut self.active_namespaces, &record.namespace);
        self.storage.put(&record);
        Ok(())
    }

    /// Whether a commit is due at `now`.
    pub fn should_commit_at(&self, now: u64) -> (r: bool)
        ensures
            r == commit_due(now, self.epoch_start(), self.config.batch_interval_secs),
    {
        let elapsed = now.saturating_sub(self.epoch_start_ts);
        elapsed >= self.config.batch_interval_secs
    }

    /// Whether a commit is due now, by the system clock: whether the
    /// interval has passed since the epoch started, at the time the clock
    /// gives.
    pub fn should_commit(&self) -> (r: bool)
        ensures
            exists|now: u64| r == #[trigger] commit_due(now, self.epoch_start(), self.config.batch_interval_secs),
    {
        let now = Self::now_secs();
        self.should_commit_at(now)
    }

    /// Commits one namespace's records up to `committed_at`: when there are
    /// any, their root under the configured accumulator is registered as one
    /// batch commitment, and they leave the store.
    pub fn commit_namespace(&mut self, namespace: &Namespace, committed_at: u64) -> (res: Result<
        (),
        (),
    >)
        ensures
            res is Ok,
            final(self).commit_state() == crate::commit::commit_ns_state(
                old(self).commit_state(),
                namespace@,
                committed_at,
                old(self).config.accumulator_type,
            ),
            final(self).epoch_start() == old(self).epoch_start(),
            final(self).active() == old(self).active(),
            final(self).config == old(self).config,
            final(self).proof_registry == old(self).proof_registry,
    {
        let t = self.config.accumulator_type;
        let _ = commit_namespace_records(
            &mut self.storage,
            &mut self.commitment_registry,
            namespace,
            committed_at,
            t,
        );
        Ok(())
    }

    /// Commits, at the end time of the current epoch, every namespace seen
    /// in it, in first-seen order; then starts a new epoch at `now` with no
    /// namespace seen.
    pub fn perform_commit_at(&mut self, now: u64) -> (res: Result<(), ()>)
        requires
            old(self).epoch_start() + old(self).config.batch_interval_secs <= u64::MAX,
        ensures
            res is Ok,
            final(self).commit_state() == commit_all(
                old(self).commit_state(),
                old(self).active(),
                (old(self).epoch_start() + old(self).config.batch_interval_secs) as u64,
                old(self).config.accumulator_type,
            ),
            final(self).epoch_start() == now,
            final(self).active() == Seq::<Seq<u8>>::empty(),
            final(self).config == old(self).config,
            final(self).proof_registry == old(self).proof_registry,
    {
        let committed_at = self.epoch_start_ts + self.config.batch_interval_secs;
        let t = self.config.accumulator_type;
        let namespaces = copy_namespaces(&self.active_namespaces);
        let ghost nss = namespaces_view(namespaces@);
        let ghost st0 = self.commit_state();
        let mut i: usize = 0;
        while i < namespaces.len()
            invariant
                i <= namespaces@.len(),
                nss == namespaces_view(namespaces@),
                t == self.config.accumulator_type,
                self.config == old(self).config,
                self.proof_registry == old(self).proof_registry,
                self.commit_state() == commit_all(st0, nss.subrange(0, i as int), committed_at, t),
            decreases namespaces@.len() - i,
        {
            let _ = self.commit_namespace(&namespaces[i], committed_at);
            i += 1;
            assert(nss.subrange(0, i as int).drop_last() =~= nss.subrange(0, i - 1));
        }
        assert(nss.subrange(0, i as int) =~= nss);
        self.epoch_start_ts = now;
        self.active_namespaces = Vec::new();
        assert(self.active() =~= Seq::<Seq<u8>>::empty());
        Ok(())
    }

    /// Commits every namespace seen in the current epoch and starts a new
    /// epoch now, by the system clock.
    pub fn perform_commit(&mut self) -> (res: Result<(), ()>)
        requires
            old(self).epoch_start() + old(self).config.batch_interval_secs <= u64::MAX,
        ensures
            res is Ok,
            final(self).commit_state() == commit_all(
                old(self).commit_state(),
                old(self).active(),
                (old(self).epoch_start() + old(self).config.batch_interval_secs) as u64,
                old(self).config.accumulator_type,
            ),
            final(self).active() == Seq::<Seq<u8>>::empty(),
            final(self).config == old(self).config,
            final(self).proof_registry == old(self).proof_registry,
    {
        let now = Self::now_secs();
        self.perform_commit_at(now)
    }
}

} // verus!
