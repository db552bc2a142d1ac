//! The epoch-based orchestrator with separate steps: records are stored as
//! they arrive; once an epoch has passed, each namespace seen is committed
//! at the epoch's end time and handed on for proofs; committed records are
//! pruned later; old records and commitments are archived.
//!
//! Each step is a function from the orchestrator's state (and the time) to
//! its next state and what is to be sent on; the service loop that runs the
//! steps, sleeps between them and passes results along lives outside.

use vstd::prelude::*;

use crate::app_v2::commit_due;
use crate::app_v2::copy_namespaces;
use crate::app_v2::insert_namespace;
use crate::app_v2::namespaces_view;
use crate::app_v2::note_namespace;
use crate::archive::data::ArchiveData;
use crate::archive::data::ArchiveDataView;
use crate::archive::mock::archive_id;
use crate::archive::mock::items_view;
use crate::archive::mock::store_entry;
use crate::archive::mock::lemma_store_batch_append;
use crate::archive::mock::store_batch;
use crate::archive::noop::NoopArchive;
use crate::archive::ArchiveStorageVariant;
use crate::commit::batch_meta;
use crate::commit::batch_root;
use crate::commit::build_batch_meta;
use crate::commit::record_pairs;
use crate::commitment_registry::commitment_noop::CommitmentNoop;
use crate::commitment_registry::variant::registry_after_commit;
use crate::commitment_registry::variant::registry_prev;
use crate::commitment_registry::variant::RegistryView;
use crate::commitment_registry::CommitmentRegistryVariant;
use crate::config::BaseConfig;
use crate::crypto::variant::accumulate;
use crate::crypto::variant::state_prove;
use crate::crypto::variant::AccState;
use crate::crypto::variant::AccumulatorType;
use crate::crypto::variant::AccumulatorVariant;
use crate::proof_delivery::noop::NoopDelivery;
use crate::proof_delivery::variant::ProofDeliveryVariant;
use crate::proof_registry::noop::NoopProofRegistry;
use crate::proof_registry::variant::ProofRegistryVariant;
use crate::storage::reject;
use crate::storage::select;
use crate::storage::Storage;
use crate::storage::StorageDeleteFilter;
use crate::storage::StorageScanFilter;
use crate::types::BatchCommitmentMeta;
use crate::types::CommitmentFilterOptions;
use crate::types::IncomingRecord;
use crate::types::Key32;
use crate::types::Namespace;
use crate::types::StoredProof;
use crate::types::StoredProofView;
use crate::types::Value32;

verus! {

/// Records older than this many seconds are archived: thirty days.
pub const ARCHIVE_THRESHOLD_SECS: u64 = 30 * 24 * 3600;

/// Records are archived in batches of at most this many.
pub const ARCHIVE_BATCH_SIZE: usize = 100;

/// Epoch phase for the commit cycle.
#[derive(Debug, Clone, Copy, PartialEq, Eq, Structural)]
pub enum EpochPhase {
    /// Waiting for the next commit window.
    Pending,
    /// Actively committing batches.
    Commit,
}

/// A record kept after its commit until it is pruned from the store.
#[derive(Clone, Copy, Debug)]
pub struct CommittedRecord {
    pub namespace: Namespace,
    pub key: Key32,
    pub value: Value32,
    pub timestamp: u64,
}

/// The committed-record entry of a stored record.
pub open spec fn committed_of(r: IncomingRecord) -> CommittedRecord {
    CommittedRecord { namespace: r.namespace, key: r.key, value: r.value, timestamp: r.timestamp }
}

/// The committed-record entries of stored records, in order.
pub open spec fn committed_of_all(recs: Seq<IncomingRecord>) -> Seq<CommittedRecord> {
    recs.map_values(|r: IncomingRecord| committed_of(r))
}

/// What a commit hands on for proofs: the namespace, the root, the commit
/// time and the committed key-value pairs.
#[derive(Debug)]
pub struct CommitNotice {
    pub namespace: Namespace,
    pub root: Vec<u8>,
    pub committed_at: u64,
    pub records: Vec<(Key32, Value32)>,
}

/// A commit notice as plain values.
pub type NoticeView = (Seq<u8>, Seq<u8>, u64, Seq<(Seq<u8>, Seq<u8>)>);

/// Key-value pairs as plain values.
pub open spec fn pairs_view(v: Seq<(Key32, Value32)>) -> Seq<(Seq<u8>, Seq<u8>)> {
    v.map_values(|p: (Key32, Value32)| (p.0@, p.1@))
}

impl View for CommitNotice {
    type V = NoticeView;

    open spec fn view(&self) -> NoticeView {
        (self.namespace@, self.root@, self.committed_at, pairs_view(self.records@))
    }
}

/// Commit notices as plain values.
pub open spec fn notices_view(v: Seq<CommitNotice>) -> Seq<NoticeView> {
    v.map_values(|n: CommitNotice| n@)
}

/// What a commit cycle changes, as plain values: the commitment registry,
/// the records kept for pruning, and the notices handed on.
pub struct CycleView {
    pub registry: RegistryView,
    pub committed: Seq<CommittedRecord>,
    pub notices: Seq<NoticeView>,
}

/// Committing namespace `ns` at `at` over the store `storage`: its records up
/// to that time, if any, become one batch commitment, are kept for pruning,
/// and are handed on with the batch root.
pub open spec fn cycle_commit_ns(
    storage: Seq<IncomingRecord>,
    st: CycleView,
    ns: Seq<u8>,
    at: u64,
    t: AccumulatorType,
) -> CycleView {
    let recs = select(storage, ns, Some(at));
    if recs.len() == 0 {
        st
    } else {
        CycleView {
            registry: registry_after_commit(st.registry, batch_meta(ns, recs, at, t)),
            committed: st.committed + committed_of_all(recs),
            notices: st.notices.push((ns, batch_root(t, recs), at, record_pairs(recs))),
        }
    }
}

/// Committing each namespace of `nss`, in order.
pub open spec fn cycle_commit_all(
    storage: Seq<IncomingRecord>,
    st: CycleView,
    nss: Seq<Seq<u8>>,
    at: u64,
    t: AccumulatorType,
) -> CycleView
    decreases nss.len(),
{
    if nss.len() == 0 {
        st
    } else {
        cycle_commit_ns(storage, cycle_commit_all(storage, st, nss.drop_last(), at, t), nss.last(), at, t)
    }
}

/// The stored proofs made for each key of `keys`, in order, by an
/// accumulator in state `st`, for the batch with root `root` of namespace
/// `ns` committed at `at`; keys without a proof are skipped.
pub open spec fn proofs_of_keys(
    st: AccState,
    root: Seq<u8>,
    ns: Seq<u8>,
    at: u64,
    keys: Seq<Seq<u8>>,
) -> Seq<StoredProofView>
    decreases keys.len(),
{
    if keys.len() == 0 {
        seq![]
    } else {
        let rest = proofs_of_keys(st, root, ns, at, keys.drop_last());
        match state_prove(st, keys.last()) {
            Some(p) => rest.push((root, p, keys.last(), ns, at)),
            None => rest,
        }
    }
}

/// The namespaces of committed records, each once, in first-seen order.
pub open spec fn prune_namespaces(recs: Seq<CommittedRecord>) -> Seq<Seq<u8>>
    decreases recs.len(),
{
    if recs.len() == 0 {
        seq![]
    } else {
        insert_namespace(prune_namespaces(recs.drop_last()), recs.last().namespace@)
    }
}

/// The latest timestamp among the committed records of `ns` (zero when none).
pub open spec fn max_timestamp(recs: Seq<CommittedRecord>, ns: Seq<u8>) -> u64
    decreases recs.len(),
{
    if recs.len() == 0 {
        0
    } else {
        let m = max_timestamp(recs.drop_last(), ns);
        if recs.last().namespace@ == ns && recs.last().timestamp > m {
            recs.last().timestamp
        } else {
            m
        }
    }
}

/// What pruning removes: for each namespace of the committed records, in
/// first-seen order, that namespace's records up to its latest committed
/// timestamp.
pub open spec fn prune_plan(recs: Seq<CommittedRecord>) -> Seq<(Seq<u8>, u64)> {
    prune_namespaces(recs).map_values(|ns: Seq<u8>| (ns, max_timestamp(recs, ns)))
}

/// The store after each removal of `plan`, in order.
pub open spec fn apply_prune(s: Seq<IncomingRecord>, plan: Seq<(Seq<u8>, u64)>) -> Seq<
    IncomingRecord,
>
    decreases plan.len(),
{
    if plan.len() == 0 {
        s
    } else {
        reject(apply_prune(s, plan.drop_last()), plan.last().0, Some(plan.last().1))
    }
}

/// The time before which data is archived: thirty days before `now`, or the
/// epoch when `now` is earlier than that.
pub open spec fn archive_cutoff(now: u64) -> u64 {
    if now >= ARCHIVE_THRESHOLD_SECS {
        (now - ARCHIVE_THRESHOLD_SECS) as u64
    } else {
        0
    }
}

/// How many stored records of the namespaces `nss` date up to `cutoff`,
/// counted per namespace.
pub open spec fn archivable_records(s: Seq<IncomingRecord>, nss: Seq<Seq<u8>>, cutoff: u64) -> nat
    decreases nss.len(),
{
    if nss.len() == 0 {
        0
    } else {
        archivable_records(s, nss.drop_last(), cutoff) + select(s, nss.last(), Some(cutoff)).len()
    }
}

/// Whether the registry holds a commitment of `ns` made no later than `cutoff`.
pub open spec fn has_old_commitment(reg: RegistryView, ns: Seq<u8>, cutoff: u64) -> bool {
    registry_prev(reg, ns, cutoff) matches Some(c) && c.2 <= cutoff
}

/// How many of the namespaces `nss` have a commitment made no later than `cutoff`.
pub open spec fn archivable_commitments(reg: RegistryView, nss: Seq<Seq<u8>>, cutoff: u64) -> nat
    decreases nss.len(),
{
    if nss.len() == 0 {
        0
    } else {
        archivable_commitments(reg, nss.drop_last(), cutoff) + (if has_old_commitment(
            reg,
            nss.last(),
            cutoff,
        ) {
            1nat
        } else {
            0nat
        })
    }
}

/// Stored records as archive items.
pub open spec fn record_views(recs: Seq<IncomingRecord>) -> Seq<ArchiveDataView> {
    recs.map_values(|r: IncomingRecord| ArchiveDataView::Record(r))
}

/// The record items an archiving cycle stores: for each namespace of `nss`,
/// in order, its stored records up to `cutoff`.
pub open spec fn record_items(s: Seq<IncomingRecord>, nss: Seq<Seq<u8>>, cutoff: u64) -> Seq<
    ArchiveDataView,
>
    decreases nss.len(),
{
    if nss.len() == 0 {
        seq![]
    } else {
        record_items(s, nss.drop_last(), cutoff) + record_views(select(s, nss.last(), Some(cutoff)))
    }
}

/// The commitment items an archiving cycle stores: for each namespace of
/// `nss`, in order, its latest commitment made no later than `cutoff`, if
/// any, with no leaf count.
pub open spec fn commitment_items(reg: RegistryView, nss: Seq<Seq<u8>>, cutoff: u64) -> Seq<
    ArchiveDataView,
>
    decreases nss.len(),
{
    if nss.len() == 0 {
        seq![]
    } else {
        let rest = commitment_items(reg, nss.drop_last(), cutoff);
        match registry_prev(reg, nss.last(), cutoff) {
            Some(c) => if c.2 <= cutoff {
                rest.push(ArchiveDataView::Commitment((c, 0u64)))
            } else {
                rest
            },
            None => rest,
        }
    }
}

/// There are as many record items as archivable records.
proof fn lemma_record_items_len(s: Seq<IncomingRecord>, nss: Seq<Seq<u8>>, cutoff: u64)
    ensures
        record_items(s, nss, cutoff).len() == archivable_records(s, nss, cutoff),
    decreases nss.len(),
{
    if nss.len() > 0 {
        lemma_record_items_len(s, nss.drop_last(), cutoff);
    }
}

/// There are as many commitment items as archivable commitments.
proof fn lemma_commitment_items_len(reg: RegistryView, nss: Seq<Seq<u8>>, cutoff: u64)
    ensures
        commitment_items(reg, nss, cutoff).len() == archivable_commitments(reg, nss, cutoff),
    decreases nss.len(),
{
    if nss.len() > 0 {
        lemma_commitment_items_len(reg, nss.drop_last(), cutoff);
    }
}

/// An accumulator of type `t` holding `records`, put in order.
fn accumulate_pairs(t: AccumulatorType, records: &Vec<(Key32, Value32)>) -> (acc:
    AccumulatorVariant)
    ensures
        acc.wf(),
        acc.accumulator_kind() == t,
        acc@ == accumulate(t, pairs_view(records@)),
{
    let mut acc = AccumulatorVariant::new(t);
    let mut i: usize = 0;
    while i < records.len()
        invariant
            i <= records@.len(),
            acc.wf(),
            acc.accumulator_kind() == t,
            acc@ == accumulate(t, pairs_view(records@).subrange(0, i as int)),
        decreases records@.len() - i,
    {
        let _ = acc.put(records[i].0, records[i].1);
        i += 1;
        assert(pairs_view(records@).subrange(0, i as int).drop_last() =~= pairs_view(
            records@,
        ).subrange(0, i - 1));
    }
    assert(pairs_view(records@).subrange(0, i as int) =~= pairs_view(records@));
    acc
}

/// The main orchestrator.
pub struct RootSmith {
    /// Where batch commitments go.
    pub commitment_registry: CommitmentRegistryVariant,
    /// Where proofs go.
    pub proof_registry: ProofRegistryVariant,
    /// Where proofs are delivered.
    pub proof_delivery: ProofDeliveryVariant,
    /// Where old data is archived.
    pub archive_storage: ArchiveStorageVariant,
    /// The settings, among them the epoch length and the accumulator type.
    pub config: BaseConfig,
    /// The record store.
    pub storage: Storage,
    /// Start time of the current epoch (unix seconds).
    pub epoch_start_ts: u64,
    /// The namespaces seen in the current epoch, each once, in first-seen order.
    pub active_namespaces: Vec<Namespace>,
    /// Records committed but not yet pruned from the store.
    pub committed_records: Vec<CommittedRecord>,
}

impl RootSmith {
    /// The namespaces seen in the current epoch, in first-seen order.
    pub open spec fn active(&self) -> Seq<Seq<u8>> {
        namespaces_view(self.active_namespaces@)
    }

    /// An orchestrator over the given parts whose first epoch starts at `now`.
    pub fn new(
        commitment_registry: CommitmentRegistryVariant,
        proof_registry: ProofRegistryVariant,
        proof_delivery: ProofDeliveryVariant,
        archive_storage: ArchiveStorageVariant,
        config: BaseConfig,
        storage: Storage,
        now: u64,
    ) -> (r: Self)
        ensures
            r.commitment_registry == commitment_registry,
            r.proof_registry == proof_registry,
            r.proof_delivery == proof_delivery,
            r.archive_storage == archive_storage,
            r.config == config,
            r.storage == storage,
            r.epoch_start_ts == now,
            r.active_namespaces@.len() == 0,
            r.committed_records@.len() == 0,
    {
        RootSmith {
            commitment_registry,
            proof_registry,
            proof_delivery,
            archive_storage,
            config,
            storage,
            epoch_start_ts: now,
            active_namespaces: Vec::new(),
            committed_records: Vec::new(),
        }
    }

    /// An orchestrator with an empty store and parts that keep nothing:
    /// no-op registries, delivery and archive.
    pub fn initialize(config: BaseConfig, now: u64) -> (r: Self)
        ensures
            r.commitment_registry is Noop,
            r.proof_registry is Noop,
            r.proof_delivery is Noop,
            r.archive_storage is Noop,
            r.config == config,
            r.storage@.len() == 0,
            r.epoch_start_ts == now,
            r.active_namespaces@.len() == 0,
            r.committed_records@.len() == 0,
    {
        Self::new(
            CommitmentRegistryVariant::Noop(CommitmentNoop::new()),
            ProofRegistryVariant::Noop(NoopProofRegistry),
            ProofDeliveryVariant::Noop(NoopDelivery),
            ArchiveStorageVariant::Noop(NoopArchive),
            config,
            Storage::new(),
            now,
        )
    }

    /// The current unix time in seconds, from the system clock; zero when
    /// the clock reads before 1970.
    pub fn now_secs() -> u64 {
        crate::clock::unix_time_secs()
    }

    /// Stores an arriving record and notes its namespace as active.
    pub fn record_incoming(&mut self, record: &IncomingRecord)
        ensures
            final(self).storage@ == old(self).storage@.push(*record),
            final(self).active() == insert_namespace(old(self).active(), record.namespace@),
            final(self).epoch_start_ts == old(self).epoch_start_ts,
            final(self).committed_records == old(self).committed_records,
            final(self).commitment_registry == old(self).commitment_registry,
    {
        self.storage.put(record);
        note_namespace(&mut self.active_namespaces, &record.namespace);
    }

    /// Whether a commit is due at `now`.
    pub fn should_commit_at(&self, now: u64) -> (r: bool)
        ensures
            r == commit_due(now, self.epoch_start_ts, self.config.batch_interval_secs),
    {
        let elapsed = now.saturating_sub(self.epoch_start_ts);
        elapsed >= self.config.batch_interval_secs
    }

    /// Commits namespace `namespace` at `committed_at`: when the store holds
    /// records of it up to that time, registers their batch commitment,
    /// keeps them for pruning and gives the notice to hand on.
    fn commit_namespace(&mut self, namespace: &Namespace, committed_at: u64) -> (r: Option<
        CommitNotice,
    >)
        ensures
            final(self).storage == old(self).storage,
            final(self).config == old(self).config,
            final(self).epoch_start_ts == old(self).epoch_start_ts,
            final(self).active_namespaces == old(self).active_namespaces,
            final(self).proof_registry == old(self).proof_registry,
            final(self).proof_delivery == old(self).proof_delivery,
            final(self).archive_storage == old(self).archive_storage,
            ({
                let st = cycle_commit_ns(
                    old(self).storage@,
                    CycleView {
                        registry: old(self).commitment_registry@,
                        committed: old(self).committed_records@,
                        notices: seq![],
                    },
                    namespace@,
                    committed_at,
                    old(self).config.accumulator_type,
                );
                &&& final(self).commitment_registry@ == st.registry
                &&& final(self).committed_records@ == st.committed
                &&& st.notices == (match r {
                    Some(n) => seq![n@],
                    None => Seq::<NoticeView>::empty(),
                })
            }),
    {
        let filter = StorageScanFilter { namespace: *namespace, timestamp: Some(committed_at) };
        let records = self.storage.scan(&filter);
        if records.len() == 0 {
            return None;
        }
        let t = self.config.accumulator_type;
        let meta = build_batch_meta(namespace, &records, committed_at, t);
        let root = crate::bytes::copy_bytes(&meta.commitment.root);
        let _ = self.commitment_registry.commit(&meta);
        let ghost committed_before = self.committed_records@;
        let ghost registry_after = self.commitment_registry;
        let mut pairs: Vec<(Key32, Value32)> = Vec::new();
        let mut i: usize = 0;
        while i < records.len()
            invariant
                i <= records@.len(),
                self.storage == old(self).storage,
                self.config == old(self).config,
                self.epoch_start_ts == old(self).epoch_start_ts,
                self.active_namespaces == old(self).active_namespaces,
                self.proof_registry == old(self).proof_registry,
                self.proof_delivery == old(self).proof_delivery,
                self.archive_storage == old(self).archive_storage,
                self.commitment_registry == registry_after,
                self.committed_records@ == committed_before + committed_of_all(
                    records@.subrange(0, i as int),
                ),
                pairs_view(pairs@) == record_pairs(records@.subrange(0, i as int)),
            decreases records@.len() - i,
        {
            let r = records[i];
            let ghost pairs_before = pairs_view(pairs@);
            self.committed_records.push(
                CommittedRecord {
                    namespace: r.namespace,
                    key: r.key,
                    value: r.value,
                    timestamp: r.timestamp,
                },
            );
            pairs.push((r.key, r.value));
            i += 1;
            assert(committed_of_all(records@.subrange(0, i as int)) =~= committed_of_all(
                records@.subrange(0, i - 1),
            ).push(committed_of(r)));
            assert(self.committed_records@ =~= committed_before + committed_of_all(
                records@.subrange(0, i as int),
            ));
            assert(pairs_view(pairs@) =~= pairs_before.push((r.key@, r.value@)));
            assert(record_pairs(records@.subrange(0, i as int)) =~= record_pairs(
                records@.subrange(0, i - 1),
            ).push((r.key@, r.value@)));
        }
        assert(records@.subrange(0, i as int) =~= records@);
        Some(CommitNotice { namespace: *namespace, root, committed_at, records: pairs })
    }

    /// One commit cycle at time `now`. When no commit is due, nothing
    /// changes and `false` is given. Otherwise every namespace seen in the
    /// epoch is committed, in first-seen order, at the epoch's end time, and
    /// the next epoch starts at `now` with no namespace seen. The flag given
    /// says whether a commit was performed: it is `true` exactly when some
    /// namespace was seen in the epoch. The notices are handed on for proofs.
    pub fn process_commit_cycle(&mut self, now: u64) -> (res: (bool, Vec<CommitNotice>))
        ensures
            final(self).storage == old(self).storage,
            final(self).config == old(self).config,
            final(self).proof_registry == old(self).proof_registry,
            final(self).proof_delivery == old(self).proof_delivery,
            final(self).archive_storage == old(self).archive_storage,
            !commit_due(now, old(self).epoch_start_ts, old(self).config.batch_interval_secs) ==> {
                &&& !res.0
                &&& res.1@.len() == 0
                &&& *final(self) == *old(self)
            },
            commit_due(now, old(self).epoch_start_ts, old(self).config.batch_interval_secs) ==> {
                let st = cycle_commit_all(
                    old(self).storage@,
                    CycleView {
                        registry: old(self).commitment_registry@,
                        committed: old(self).committed_records@,
                        notices: seq![],
                    },
                    old(self).active(),
                    (old(self).epoch_start_ts + old(self).config.batch_interval_secs) as u64,
                    old(self).config.accumulator_type,
                );
                &&& res.0 == (old(self).active().len() > 0)
                &&& final(self).epoch_start_ts == now
                &&& final(self).active_namespaces@.len() == 0
                &&& final(self).commitment_registry@ == st.registry
                &&& final(self).committed_records@ == st.committed
                &&& notices_view(res.1@) == st.notices
            },
    {
        if !self.should_commit_at(now) {
            return (false, Vec::new());
        }
        let namespaces = copy_namespaces(&self.active_namespaces);
        let mut notices: Vec<CommitNotice> = Vec::new();
        let ghost nss = namespaces_view(namespaces@);
        let ghost st0 = CycleView {
            registry: self.commitment_registry@,
            committed: self.committed_records@,
            notices: seq![],
        };
        if namespaces.len() > 0 {
            let committed_at = self.epoch_start_ts + self.config.batch_interval_secs;
            let ghost t = self.config.accumulator_type;
            let ghost storage0 = self.storage@;
            let mut i: usize = 0;
            while i < namespaces.len()
                invariant
                    i <= namespaces@.len(),
                    nss == namespaces_view(namespaces@),
                    self.storage == old(self).storage,
                    self.config == old(self).config,
                    self.epoch_start_ts == old(self).epoch_start_ts,
                    self.active_namespaces == old(self).active_namespaces,
                    self.proof_registry == old(self).proof_registry,
                    self.proof_delivery == old(self).proof_delivery,
                    self.archive_storage == old(self).archive_storage,
                    t == self.config.accumulator_type,
                    storage0 == self.storage@,
                    ({
                        let st = cycle_commit_all(storage0, st0, nss.subrange(0, i as int), committed_at, t);
                        &&& self.commitment_registry@ == st.registry
                        &&& self.committed_records@ == st.committed
                        &&& notices_view(notices@) == st.notices
                    }),
                decreases namespaces@.len() - i,
            {
                let ghost before = notices_view(notices@);
                let ghost st_prev = cycle_commit_all(
                    storage0,
                    st0,
                    nss.subrange(0, i as int),
                    committed_at,
                    t,
                );
                let ghost st_next = cycle_commit_ns(storage0, st_prev, nss[i as int], committed_at, t);
                proof {
                    assert(nss.subrange(0, i + 1).drop_last() =~= nss.subrange(0, i as int));
                    assert(nss.subrange(0, i + 1).last() == nss[i as int]);
                    assert(cycle_commit_all(storage0, st0, nss.subrange(0, i + 1), committed_at, t)
                        == st_next);
                    assert(nss[i as int] == namespaces@[i as int]@);
                }
                proof {
                    lemma_cycle_commit_ns_split(storage0, st_prev, nss[i as int], committed_at, t);
                }
                let n = self.commit_namespace(&namespaces[i], committed_at);
                match n {
                    Some(notice) => {
                        notices.push(notice);
                        assert(notices_view(notices@) =~= before.push(notice@));
                        assert(before.push(notice@) =~= before + seq![notice@]);
                    },
                    None => {
                        assert(before =~= before + Seq::<NoticeView>::empty());
                    },
                }
                i += 1;
            }
            assert(nss.subrange(0, i as int) =~= nss);
            self.epoch_start_ts = now;
            self.active_namespaces = Vec::new();
        } else {
            assert(nss =~= Seq::<Seq<u8>>::empty());
            assert(notices_view(notices@) =~= Seq::<NoticeView>::empty());
            self.epoch_start_ts = now;
            assert(self.active_namespaces@ =~= Seq::<Namespace>::empty());
        }
        (namespaces.len() > 0, notices)
    }

    /// Makes the proofs of a committed batch: an accumulator of type
    /// `accumulator_type` takes the batch's key-value pairs, in order, and
    /// each key that it can prove, in order, gives a stored proof with the
    /// batch's root, namespace and commit time. The proofs, if there are
    /// any, are saved to `proof_registry`; they are given back to be delivered.
    pub fn process_proof_generation(
        namespace: Namespace,
        root: &Vec<u8>,
        committed_at: u64,
        records: &Vec<(Key32, Value32)>,
        proof_registry: &mut ProofRegistryVariant,
        accumulator_type: AccumulatorType,
    ) -> (res: Result<Vec<StoredProof>, ()>)
        ensures
            res matches Ok(v) && v@.map_values(|p: StoredProof| p@) == proofs_of_keys(
                accumulate(accumulator_type, pairs_view(records@)),
                root@,
                namespace@,
                committed_at,
                pairs_view(records@).map_values(|p: (Seq<u8>, Seq<u8>)| p.0),
            ),
            *final(proof_registry) is Mock <==> *old(proof_registry) is Mock,
            res matches Ok(v) && (*old(proof_registry) is Mock ==> final(proof_registry).kept()
                == old(proof_registry).kept() + v@.map_values(|p: StoredProof| p@)),
            !(*old(proof_registry) is Mock) ==> final(proof_registry).kept() == old(
                proof_registry,
            ).kept(),
    {
        let mut accumulator = accumulate_pairs(accumulator_type, records);
        let ghost st = accumulator@;
        let ghost keys = pairs_view(records@).map_values(|p: (Seq<u8>, Seq<u8>)| p.0);
        let mut stored_proofs: Vec<StoredProof> = Vec::new();
        let mut i: usize = 0;
        while i < records.len()
            invariant
                i <= records@.len(),
                accumulator.wf(),
                accumulator@ == st,
                keys == pairs_view(records@).map_values(|p: (Seq<u8>, Seq<u8>)| p.0),
                stored_proofs@.map_values(|p: StoredProof| p@) == proofs_of_keys(
                    st,
                    root@,
                    namespace@,
                    committed_at,
                    keys.subrange(0, i as int),
                ),
            decreases records@.len() - i,
        {
            let key = records[i].0;
            let ghost before = stored_proofs@.map_values(|p: StoredProof| p@);
            assert(keys.subrange(0, i + 1).drop_last() =~= keys.subrange(0, i as int));
            assert(keys.subrange(0, i + 1).last() == key@);
            match accumulator.prove(&key) {
                Ok(Some(proof)) => {
                    let sp = StoredProof {
                        root: crate::bytes::copy_bytes(root),
                        proof,
                        key,
                        namespace,
                        committed_at,
                    };
                    let ghost spv = sp@;
                    stored_proofs.push(sp);
                    assert(stored_proofs@.map_values(|p: StoredProof| p@) =~= before.push(spv));
                },
                _ => {},
            }
            i += 1;
        }
        assert(keys.subrange(0, i as int) =~= keys);
        if stored_proofs.len() > 0 {
            match proof_registry.save_proofs(stored_proofs.as_slice()) {
                Ok(()) => {},
                Err(e) => {
                    return Err(e);
                },
            }
        }
        Ok(stored_proofs)
    }

    /// Prunes committed records from the store: for each namespace among
    /// them, in first-seen order, removes that namespace's records up to its
    /// latest committed timestamp. The kept list is emptied. Gives, for each
    /// removal, the namespace, the timestamp bound and how many records went.
    pub fn prune_committed(&mut self) -> (r: Vec<(Namespace, u64, usize)>)
        ensures
            final(self).committed_records@.len() == 0,
            final(self).storage@ == apply_prune(
                old(self).storage@,
                prune_plan(old(self).committed_records@),
            ),
            r@.len() == prune_plan(old(self).committed_records@).len(),
            forall|i: int|
                0 <= i < r@.len() ==> {
                    let plan = prune_plan(old(self).committed_records@);
                    &&& (#[trigger] r@[i]).0@ == plan[i].0
                    &&& r@[i].1 == plan[i].1
                    &&& r@[i].2 == select(
                        apply_prune(old(self).storage@, plan.subrange(0, i)),
                        plan[i].0,
                        Some(plan[i].1),
                    ).len()
                },
            final(self).epoch_start_ts == old(self).epoch_start_ts,
            final(self).active_namespaces == old(self).active_namespaces,
            final(self).commitment_registry == old(self).commitment_registry,
            final(self).config == old(self).config,
    {
        let records = self.committed_records.clone();
        assert(records@ =~= old(self).committed_records@) by {
            assert forall|j: int| 0 <= j < records@.len() implies records@[j] == old(
                self,
            ).committed_records@[j] by {}
        }
        self.committed_records = Vec::new();
        let mut report: Vec<(Namespace, u64, usize)> = Vec::new();
        let ghost recs = records@;
        let mut nss: Vec<Namespace> = Vec::new();
        let mut i: usize = 0;
        while i < records.len()
            invariant
                i <= records@.len(),
                recs == records@,
                namespaces_view(nss@) == prune_namespaces(recs.subrange(0, i as int)),
            decreases records@.len() - i,
        {
            note_namespace(&mut nss, &records[i].namespace);
            i += 1;
            assert(recs.subrange(0, i as int).drop_last() =~= recs.subrange(0, i - 1));
        }
        assert(recs.subrange(0, i as int) =~= recs);
        let ghost plan = prune_plan(recs);
        let ghost s0 = self.storage@;
        assert(plan.len() == nss@.len());
        let mut j: usize = 0;
        while j < nss.len()
            invariant
                j <= nss@.len(),
                recs == records@,
                plan == prune_plan(recs),
                namespaces_view(nss@) == prune_namespaces(recs),
                plan.len() == nss@.len(),
                self.storage@ == apply_prune(s0, plan.subrange(0, j as int)),
                self.committed_records@.len() == 0,
                self.epoch_start_ts == old(self).epoch_start_ts,
                self.active_namespaces == old(self).active_namespaces,
                self.commitment_registry == old(self).commitment_registry,
                self.config == old(self).config,
                report@.len() == j,
                forall|k: int|
                    0 <= k < j ==> {
                        &&& (#[trigger] report@[k]).0@ == plan[k].0
                        &&& report@[k].1 == plan[k].1
                        &&& report@[k].2 == select(
                            apply_prune(s0, plan.subrange(0, k)),
                            plan[k].0,
                            Some(plan[k].1),
                        ).len()
                    },
            decreases nss@.len() - j,
        {
            let ns = nss[j];
            assert(plan[j as int].0 == ns@);
            let mut max_ts: u64 = 0;
            let mut k: usize = 0;
            while k < records.len()
                invariant
                    k <= records@.len(),
                    recs == records@,
                    max_ts == max_timestamp(recs.subrange(0, k as int), ns@),
                decreases records@.len() - k,
            {
                assert(recs.subrange(0, k + 1).drop_last() =~= recs.subrange(0, k as int));
                if crate::bytes::eq32(&records[k].namespace, &ns) && records[k].timestamp > max_ts {
                    max_ts = records[k].timestamp;
                }
                k += 1;
            }
            assert(recs.subrange(0, k as int) =~= recs);
            let filter = StorageDeleteFilter { namespace: ns, timestamp: max_ts };
            let ghost before = self.storage@;
            let count = self.storage.delete(&filter);
            report.push((ns, max_ts, count));
            j += 1;
            assert(plan.subrange(0, j as int).drop_last() =~= plan.subrange(0, j - 1));
        }
        assert(plan.subrange(0, j as int) =~= plan);
        report
    }

    /// Whether an archiving cycle at `now` stays within the machine's sizes
    /// and the archive's numbering, as `archive_cycle` needs.
    pub fn archive_cycle_fits(&self, now: u64) -> (r: bool)
        ensures
            r == (archivable_records(self.storage@, self.active(), archive_cutoff(now))
                + archivable_commitments(
                self.commitment_registry@,
                self.active(),
                archive_cutoff(now),
            ) <= usize::MAX && self.archive_storage.has_room_for(
                archivable_records(self.storage@, self.active(), archive_cutoff(now))
                    + archivable_commitments(
                    self.commitment_registry@,
                    self.active(),
                    archive_cutoff(now),
                ),
            )),
    {
        let cutoff = now.saturating_sub(ARCHIVE_THRESHOLD_SECS);
        let ghost nss = self.active();
        let ghost total_c = archivable_commitments(self.commitment_registry@, nss, cutoff);
        let n = self.active_namespaces.len();
        let mut total: usize = 0;
        let mut i: usize = 0;
        while i < n
            invariant
                i <= n,
                n == self.active_namespaces@.len(),
                nss == self.active(),
                cutoff == archive_cutoff(now),
                total == archivable_records(self.storage@, nss.subrange(0, i as int), cutoff),
            decreases n - i,
        {
            proof {
                lemma_archivable_records_prefix(self.storage@, nss, cutoff, i as int + 1);
                lemma_archivable_records_prefix(self.storage@, nss.subrange(0, i + 1), cutoff, i as int);
            }
            let ns = self.active_namespaces[i];
            assert(nss.subrange(0, i + 1).drop_last() =~= nss.subrange(0, i as int));
            assert(nss.subrange(0, i + 1).last() == ns@);
            let filter = StorageScanFilter { namespace: ns, timestamp: Some(cutoff) };
            let count = self.storage.scan(&filter).len();
            if count > usize::MAX - total {
                proof {
                    lemma_archivable_records_prefix(self.storage@, nss, cutoff, i as int + 1);
                    assert(archivable_records(self.storage@, nss.subrange(0, i + 1), cutoff) == total
                        + count);
                    assert(archivable_records(self.storage@, nss, cutoff) > usize::MAX);
                }
                return false;
            }
            total = total + count;
            i += 1;
        }
        assert(nss.subrange(0, i as int) =~= nss);
        let mut j: usize = 0;
        let ghost total_r = total as nat;
        while j < n
            invariant
                j <= n,
                n == self.active_namespaces@.len(),
                nss == self.active(),
                cutoff == archive_cutoff(now),
                total_r == archivable_records(self.storage@, nss, cutoff),
                total == total_r + archivable_commitments(
                    self.commitment_registry@,
                    nss.subrange(0, j as int),
                    cutoff,
                ),
            decreases n - j,
        {
            let ns = self.active_namespaces[j];
            assert(nss.subrange(0, j + 1).drop_last() =~= nss.subrange(0, j as int));
            assert(nss.subrange(0, j + 1).last() == ns@);
            let filter = CommitmentFilterOptions { namespace: ns, time: cutoff };
            let old_one = match self.commitment_registry.get_prev_commitment(&filter) {
                Ok(Some(c)) => c.committed_at <= cutoff,
                _ => false,
            };
            assert(old_one == has_old_commitment(self.commitment_registry@, ns@, cutoff));
            if old_one {
                if total == usize::MAX {
                    proof {
                        lemma_archivable_commitments_prefix(
                            self.commitment_registry@,
                            nss,
                            cutoff,
                            j as int + 1,
                        );
                        assert(archivable_commitments(
                            self.commitment_registry@,
                            nss.subrange(0, j + 1),
                            cutoff,
                        ) == archivable_commitments(
                            self.commitment_registry@,
                            nss.subrange(0, j as int),
                            cutoff,
                        ) + 1);
                    }
                    return false;
                }
                total = total + 1;
            }
            j += 1;
        }
        assert(nss.subrange(0, j as int) =~= nss);
        self.archive_storage.has_room(total)
    }

    /// One archiving cycle at time `now`: for each namespace seen in the
    /// epoch, its stored records up to the cutoff (thirty days before `now`)
    /// are archived in batches of at most a hundred; then, for each such
    /// namespace, its latest commitment made no later than the cutoff, if
    /// any, is archived with no leaf count. Gives how many records and how
    /// many commitments were archived. The counts must fit in the machine's
    /// sizes, and a mock archive must have numbers left for every item.
    pub fn archive_cycle(&mut self, now: u64) -> (r: (usize, usize))
        requires
            archivable_records(old(self).storage@, old(self).active(), archive_cutoff(now))
                + archivable_commitments(
                old(self).commitment_registry@,
                old(self).active(),
                archive_cutoff(now),
            ) <= usize::MAX,
            old(self).archive_storage.has_room_for(
                archivable_records(old(self).storage@, old(self).active(), archive_cutoff(now))
                    + archivable_commitments(
                    old(self).commitment_registry@,
                    old(self).active(),
                    archive_cutoff(now),
                ),
            ),
        ensures
            r.0 == archivable_records(old(self).storage@, old(self).active(), archive_cutoff(now)),
            r.1 == archivable_commitments(
                old(self).commitment_registry@,
                old(self).active(),
                archive_cutoff(now),
            ),
            final(self).storage == old(self).storage,
            final(self).commitment_registry == old(self).commitment_registry,
            final(self).active_namespaces == old(self).active_namespaces,
            final(self).committed_records == old(self).committed_records,
            final(self).epoch_start_ts == old(self).epoch_start_ts,
            final(self).config == old(self).config,
            final(self).archive_storage is Mock <==> old(self).archive_storage is Mock,
            old(self).archive_storage is Mock ==> final(self).archive_storage.next_number() == old(
                self,
            ).archive_storage.next_number() + r.0 + r.1,
            final(self).archive_storage.archived() == (if old(self).archive_storage is Mock {
                store_batch(
                    old(self).archive_storage.archived(),
                    old(self).archive_storage.next_number(),
                    record_items(old(self).storage@, old(self).active(), archive_cutoff(now))
                        + commitment_items(
                        old(self).commitment_registry@,
                        old(self).active(),
                        archive_cutoff(now),
                    ),
                )
            } else {
                old(self).archive_storage.archived()
            }),
    {
        let cutoff = now.saturating_sub(ARCHIVE_THRESHOLD_SECS);
        let ghost nss = self.active();
        let ghost s0 = self.storage@;
        let ghost reg0 = self.commitment_registry@;
        let ghost total_records = archivable_records(s0, nss, cutoff);
        let ghost total_commitments = archivable_commitments(reg0, nss, cutoff);
        let ghost next0 = self.archive_storage.next_number();
        let ghost a0 = self.archive_storage.archived();
        let ghost is_mock = self.archive_storage is Mock;
        let n = self.active_namespaces.len();
        let mut archived_count: usize = 0;
        let mut i: usize = 0;
        while i < n
            invariant
                i <= n,
                n == self.active_namespaces@.len(),
                nss == self.active(),
                s0 == self.storage@,
                reg0 == self.commitment_registry@,
                self.storage == old(self).storage,
                self.commitment_registry == old(self).commitment_registry,
                self.active_namespaces == old(self).active_namespaces,
                self.committed_records == old(self).committed_records,
                self.epoch_start_ts == old(self).epoch_start_ts,
                self.config == old(self).config,
                total_records == archivable_records(s0, nss, cutoff),
                total_commitments == archivable_commitments(reg0, nss, cutoff),
                total_records + total_commitments <= usize::MAX,
                archived_count == archivable_records(s0, nss.subrange(0, i as int), cutoff),
                archived_count <= total_records,
                is_mock == (old(self).archive_storage is Mock),
                self.archive_storage is Mock <==> is_mock,
                is_mock ==> self.archive_storage.next_number() == next0 + archived_count,
                is_mock ==> next0 + total_records + total_commitments < u64::MAX,
                self.archive_storage.archived() == (if is_mock {
                    store_batch(a0, next0, record_items(s0, nss.subrange(0, i as int), cutoff))
                } else {
                    a0
                }),
            decreases n - i,
        {
            proof {
                lemma_archivable_records_prefix(s0, nss, cutoff, i as int + 1);
                lemma_record_items_len(s0, nss.subrange(0, i as int), cutoff);
            }
            let ns = self.active_namespaces[i];
            let filter = StorageScanFilter { namespace: ns, timestamp: Some(cutoff) };
            let records = self.storage.scan(&filter);
            assert(nss.subrange(0, i + 1).drop_last() =~= nss.subrange(0, i as int));
            assert(nss.subrange(0, i + 1).last() == ns@);
            let ghost base = archived_count;
            let ghost prior = record_items(s0, nss.subrange(0, i as int), cutoff);
            let mut start: usize = 0;
            assert(prior + record_views(records@.subrange(0, 0)) =~= prior);
            while start < records.len()
                invariant
                    start <= records@.len(),
                    records@ == select(s0, ns@, Some(cutoff)),
                    base + records@.len() <= total_records,
                    archived_count == base + start,
                    prior.len() == base,
                    total_records + total_commitments <= usize::MAX,
                    n == self.active_namespaces@.len(),
                    nss == self.active(),
                    s0 == self.storage@,
                    reg0 == self.commitment_registry@,
                    self.storage == old(self).storage,
                    self.commitment_registry == old(self).commitment_registry,
                    self.active_namespaces == old(self).active_namespaces,
                    self.committed_records == old(self).committed_records,
                    self.epoch_start_ts == old(self).epoch_start_ts,
                    self.config == old(self).config,
                    self.archive_storage is Mock <==> is_mock,
                    is_mock ==> self.archive_storage.next_number() == next0 + archived_count,
                    is_mock ==> next0 + total_records + total_commitments < u64::MAX,
                    self.archive_storage.archived() == (if is_mock {
                        store_batch(a0, next0, prior + record_views(records@.subrange(0, start as int)))
                    } else {
                        a0
                    }),
                decreases records@.len() - start,
            {
                let end = if records.len() - start > ARCHIVE_BATCH_SIZE {
                    start + ARCHIVE_BATCH_SIZE
                } else {
                    records.len()
                };
                let mut items: Vec<ArchiveData> = Vec::new();
                let mut k: usize = start;
                while k < end
                    invariant
                        start <= k <= end <= records@.len(),
                        items_view(items@) == record_views(records@.subrange(start as int, k as int)),
                    decreases end - k,
                {
                    let ghost before = items_view(items@);
                    items.push(ArchiveData::Record(records[k]));
                    k += 1;
                    assert(items_view(items@) =~= before.push(ArchiveDataView::Record(records@[k - 1])));
                    assert(record_views(records@.subrange(start as int, k as int)) =~= record_views(
                        records@.subrange(start as int, k - 1),
                    ).push(ArchiveDataView::Record(records@[k - 1])));
                }
                let ghost done_views = prior + record_views(records@.subrange(0, start as int));
                proof {
                    if is_mock {
                        lemma_store_batch_append(a0, next0, done_views, items_view(items@));
                    }
                    assert(done_views + items_view(items@) =~= prior + record_views(
                        records@.subrange(0, end as int),
                    ));
                }
                match self.archive_storage.archive_batch(items.as_slice()) {
                    Ok(ids) => {
                        archived_count = archived_count + ids.len();
                    },
                    Err(_) => {},
                }
                start = end;
            }
            proof {
                assert(records@.subrange(0, start as int) =~= records@);
                assert(record_items(s0, nss.subrange(0, i + 1), cutoff) =~= prior + record_views(
                    records@,
                ));
            }
            i += 1;
        }
        assert(nss.subrange(0, i as int) =~= nss);
        let ghost all_records = record_items(s0, nss, cutoff);
        proof {
            lemma_record_items_len(s0, nss, cutoff);
            assert(all_records + Seq::<ArchiveDataView>::empty() =~= all_records);
        }
        let mut archived_commitments: usize = 0;
        let mut j: usize = 0;
        while j < n
            invariant
                j <= n,
                n == self.active_namespaces@.len(),
                nss == self.active(),
                s0 == self.storage@,
                reg0 == self.commitment_registry@,
                self.storage == old(self).storage,
                self.commitment_registry == old(self).commitment_registry,
                self.active_namespaces == old(self).active_namespaces,
                self.committed_records == old(self).committed_records,
                self.epoch_start_ts == old(self).epoch_start_ts,
                self.config == old(self).config,
                total_records == archivable_records(s0, nss, cutoff),
                total_commitments == archivable_commitments(reg0, nss, cutoff),
                total_records + total_commitments <= usize::MAX,
                archived_count == total_records,
                all_records == record_items(s0, nss, cutoff),
                all_records.len() == total_records,
                archived_commitments == archivable_commitments(reg0, nss.subrange(0, j as int), cutoff),
                archived_commitments <= total_commitments,
                self.archive_storage is Mock <==> is_mock,
                is_mock ==> self.archive_storage.next_number() == next0 + archived_count
                    + archived_commitments,
                is_mock ==> next0 + total_records + total_commitments < u64::MAX,
                self.archive_storage.archived() == (if is_mock {
                    store_batch(
                        a0,
                        next0,
                        all_records + commitment_items(reg0, nss.subrange(0, j as int), cutoff),
                    )
                } else {
                    a0
                }),
            decreases n - j,
        {
            proof {
                lemma_archivable_commitments_prefix(reg0, nss, cutoff, j as int + 1);
                lemma_commitment_items_len(reg0, nss.subrange(0, j as int), cutoff);
            }
            let ns = self.active_namespaces[j];
            assert(nss.subrange(0, j + 1).drop_last() =~= nss.subrange(0, j as int));
            assert(nss.subrange(0, j + 1).last() == ns@);
            let ghost prior = all_records + commitment_items(reg0, nss.subrange(0, j as int), cutoff);
            let filter = CommitmentFilterOptions { namespace: ns, time: cutoff };
            match self.commitment_registry.get_prev_commitment(&filter) {
                Ok(Some(commitment)) => {
                    if commitment.committed_at <= cutoff {
                        let meta = BatchCommitmentMeta { commitment, leaf_count: 0 };
                        let data = ArchiveData::Commitment(meta);
                        proof {
                            lemma_commitment_items_len(reg0, nss.subrange(0, j as int), cutoff);
                            assert(prior.len() == total_records + archived_commitments);
                            if is_mock {
                                lemma_store_batch_append(a0, next0, prior, seq![data@]);
                                assert(seq![data@].drop_last() =~= Seq::<ArchiveDataView>::empty());
                                let mid = store_batch(a0, next0, prior);
                                assert(store_batch(mid, next0 + prior.len(), Seq::<ArchiveDataView>::empty()) == mid);
                                assert(seq![data@].last() == data@);
                                assert(store_batch(mid, next0 + prior.len(), seq![data@])
                                    == store_entry(
                                    mid,
                                    archive_id((next0 + prior.len()) as u64),
                                    data@,
                                ));
                            }
                            assert(commitment_items(reg0, nss.subrange(0, j + 1), cutoff)
                                =~= commitment_items(reg0, nss.subrange(0, j as int), cutoff).push(
                                data@,
                            ));
                            assert(prior + seq![data@] =~= all_records + commitment_items(
                                reg0,
                                nss.subrange(0, j + 1),
                                cutoff,
                            ));
                        }
                        match self.archive_storage.archive(&data) {
                            Ok(_) => {
                                archived_commitments = archived_commitments + 1;
                            },
                            Err(_) => {},
                        }
                    } else {
                        assert(commitment_items(reg0, nss.subrange(0, j + 1), cutoff)
                            == commitment_items(reg0, nss.subrange(0, j as int), cutoff));
                    }
                },
                _ => {
                    assert(commitment_items(reg0, nss.subrange(0, j + 1), cutoff) == commitment_items(
                        reg0,
                        nss.subrange(0, j as int),
                        cutoff,
                    ));
                },
            }
            j += 1;
        }
        assert(nss.subrange(0, j as int) =~= nss);
        (archived_count, archived_commitments)
    }
}

/// Committing a namespace changes the registry and the kept records as it
/// would with no notices so far, and adds its notices to those already there.
proof fn lemma_cycle_commit_ns_split(
    storage: Seq<IncomingRecord>,
    st: CycleView,
    ns: Seq<u8>,
    at: u64,
    t: AccumulatorType,
)
    ensures
        ({
            let e = cycle_commit_ns(
                storage,
                CycleView { registry: st.registry, committed: st.committed, notices: seq![] },
                ns,
                at,
                t,
            );
            let f = cycle_commit_ns(storage, st, ns, at, t);
            &&& f.registry == e.registry
            &&& f.committed == e.committed
            &&& f.notices == st.notices + e.notices
        }),
{
    let recs = select(storage, ns, Some(at));
    if recs.len() == 0 {
        assert(st.notices + Seq::<NoticeView>::empty() =~= st.notices);
    } else {
        let x = (ns, batch_root(t, recs), at, record_pairs(recs));
        assert(st.notices.push(x) =~= st.notices + Seq::<NoticeView>::empty().push(x));
    }
}

/// A record left after the removals of a plan is selected by none of them.
proof fn lemma_apply_prune_members(
    s: Seq<IncomingRecord>,
    plan: Seq<(Seq<u8>, u64)>,
    r: IncomingRecord,
    j: int,
)
    requires
        0 <= j < plan.len(),
        apply_prune(s, plan).contains(r),
    ensures
        !crate::storage::in_batch(r, plan[j].0, Some(plan[j].1)),
    decreases plan.len(),
{
    let prev = apply_prune(s, plan.drop_last());
    crate::storage::lemma_select_reject_members(prev, plan.last().0, Some(plan.last().1), r);
    if j < plan.len() - 1 {
        lemma_apply_prune_members(s, plan.drop_last(), r, j);
    }
}

/// Every namespace of the committed records is in their namespace list.
proof fn lemma_prune_namespaces_contains(recs: Seq<CommittedRecord>, i: int)
    requires
        0 <= i < recs.len(),
    ensures
        prune_namespaces(recs).contains(recs[i].namespace@),
    decreases recs.len(),
{
    let prev = prune_namespaces(recs.drop_last());
    if i < recs.len() - 1 {
        lemma_prune_namespaces_contains(recs.drop_last(), i);
        let k = choose|k: int| 0 <= k < prev.len() && prev[k] == recs[i].namespace@;
        if !prev.contains(recs.last().namespace@) {
            assert(prev.push(recs.last().namespace@)[k] == recs[i].namespace@);
        }
    } else {
        if !prev.contains(recs.last().namespace@) {
            assert(prev.push(recs.last().namespace@)[prev.len() as int] == recs.last().namespace@);
        }
    }
}

/// The latest timestamp of a namespace is no earlier than any of its records'.
proof fn lemma_max_timestamp_bound(recs: Seq<CommittedRecord>, i: int)
    requires
        0 <= i < recs.len(),
    ensures
        recs[i].timestamp <= max_timestamp(recs, recs[i].namespace@),
    decreases recs.len(),
{
    if i < recs.len() - 1 {
        lemma_max_timestamp_bound(recs.drop_last(), i);
    }
}

/// The number of keys of `keys` for which an accumulator in state `st`
/// gives a proof.
pub open spec fn provable_count(st: AccState, keys: Seq<Seq<u8>>) -> nat
    decreases keys.len(),
{
    if keys.len() == 0 {
        0
    } else {
        provable_count(st, keys.drop_last()) + if state_prove(st, keys.last()) is Some {
            1nat
        } else {
            0nat
        }
    }
}

/// Whether `e` is the stored proof of some key of `keys` that an
/// accumulator in state `st` proves, for the batch with root `root` of
/// namespace `ns` committed at `at`.
pub open spec fn proof_of_some_key(
    st: AccState,
    root: Seq<u8>,
    ns: Seq<u8>,
    at: u64,
    keys: Seq<Seq<u8>>,
    e: StoredProofView,
) -> bool {
    exists|i: int|
        0 <= i < keys.len() && state_prove(st, keys[i]) is Some && e == (
            root,
            state_prove(st, keys[i])->0,
            keys[i],
            ns,
            at,
        )
}

/// The stored proofs of a batch are exactly one per key that the
/// accumulator can prove: every such key has a stored proof carrying the
/// accumulator's proof of it with the batch's root, namespace and commit
/// time, every stored proof is such a one, and there are as many as there
/// are provable keys.
pub proof fn law_proofs_cover_provable_keys(
    st: AccState,
    root: Seq<u8>,
    ns: Seq<u8>,
    at: u64,
    keys: Seq<Seq<u8>>,
)
    ensures
        proofs_of_keys(st, root, ns, at, keys).len() == provable_count(st, keys),
        forall|i: int|
            0 <= i < keys.len() && (#[trigger] state_prove(st, keys[i])) is Some ==> exists|j: int|
                0 <= j < proofs_of_keys(st, root, ns, at, keys).len() && proofs_of_keys(
                    st,
                    root,
                    ns,
                    at,
                    keys,
                )[j] == (root, state_prove(st, keys[i])->0, keys[i], ns, at),
        forall|j: int|
            0 <= j < proofs_of_keys(st, root, ns, at, keys).len() ==> proof_of_some_key(
                st,
                root,
                ns,
                at,
                keys,
                #[trigger] proofs_of_keys(st, root, ns, at, keys)[j],
            ),
    decreases keys.len(),
{
    if keys.len() > 0 {
        let prev = keys.drop_last();
        let rest = proofs_of_keys(st, root, ns, at, prev);
        let all = proofs_of_keys(st, root, ns, at, keys);
        law_proofs_cover_provable_keys(st, root, ns, at, prev);
        assert forall|i: int|
            0 <= i < keys.len() && (#[trigger] state_prove(st, keys[i])) is Some implies exists|j: int|
                0 <= j < all.len() && all[j] == (root, state_prove(st, keys[i])->0, keys[i], ns, at) by {
            if i < keys.len() - 1 {
                assert(keys[i] == prev[i]);
                assert(state_prove(st, prev[i]) is Some);
                let j = choose|j: int|
                    0 <= j < rest.len() && rest[j] == (root, state_prove(st, prev[i])->0, prev[i], ns, at);
                assert(all[j] == rest[j]);
            } else {
                assert(all[rest.len() as int] == (root, state_prove(st, keys.last())->0, keys.last(), ns, at));
            }
        }
        assert forall|j: int| 0 <= j < all.len() implies proof_of_some_key(
            st,
            root,
            ns,
            at,
            keys,
            #[trigger] all[j],
        ) by {
            if j < rest.len() {
                assert(all[j] == rest[j]);
                assert(proof_of_some_key(st, root, ns, at, prev, rest[j]));
                let i = choose|i: int|
                    0 <= i < prev.len() && state_prove(st, prev[i]) is Some && rest[j] == (
                        root,
                        state_prove(st, prev[i])->0,
                        prev[i],
                        ns,
                        at,
                    );
                assert(keys[i] == prev[i]);
                assert(state_prove(st, keys[i]) is Some && all[j] == (
                    root,
                    state_prove(st, keys[i])->0,
                    keys[i],
                    ns,
                    at,
                ));
            } else {
                let k = keys.len() - 1;
                assert(keys[k] == keys.last());
                assert(state_prove(st, keys.last()) is Some);
                assert(all[j] == (root, state_prove(st, keys[k])->0, keys[k], ns, at));
                assert(0 <= k < keys.len() && state_prove(st, keys[k]) is Some);
            }
        }
    }
}

/// After pruning, the store holds no record that a committed record covers:
/// none of the same namespace with a timestamp up to the committed one.
pub proof fn law_prune_removes_committed(
    s: Seq<IncomingRecord>,
    recs: Seq<CommittedRecord>,
    r: IncomingRecord,
    i: int,
)
    requires
        0 <= i < recs.len(),
        r.namespace@ == recs[i].namespace@,
        r.timestamp <= recs[i].timestamp,
    ensures
        !apply_prune(s, prune_plan(recs)).contains(r),
{
    let ns = recs[i].namespace@;
    let plan = prune_plan(recs);
    lemma_prune_namespaces_contains(recs, i);
    lemma_max_timestamp_bound(recs, i);
    let j = choose|j: int| 0 <= j < prune_namespaces(recs).len() && prune_namespaces(recs)[j] == ns;
    assert(plan[j] == (ns, max_timestamp(recs, ns)));
    if apply_prune(s, plan).contains(r) {
        lemma_apply_prune_members(s, plan, r, j);
    }
}

/// The archivable records of a prefix of the namespaces are no more than
/// those of all of them.
proof fn lemma_archivable_records_prefix(s: Seq<IncomingRecord>, nss: Seq<Seq<u8>>, cutoff: u64, k: int)
    requires
        0 <= k <= nss.len(),
    ensures
        archivable_records(s, nss.subrange(0, k), cutoff) <= archivable_records(s, nss, cutoff),
    decreases nss.len(),
{
    if k < nss.len() {
        lemma_archivable_records_prefix(s, nss.drop_last(), cutoff, k);
        assert(nss.drop_last().subrange(0, k) =~= nss.subrange(0, k));
    } else {
        assert(nss.subrange(0, k) =~= nss);
    }
}

/// The archivable commitments of a prefix of the namespaces are no more
/// than those of all of them.
proof fn lemma_archivable_commitments_prefix(
    reg: RegistryView,
    nss: Seq<Seq<u8>>,
    cutoff: u64,
    k: int,
)
    requires
        0 <= k <= nss.len(),
    ensures
        archivable_commitments(reg, nss.subrange(0, k), cutoff) <= archivable_commitments(
            reg,
            nss,
            cutoff,
        ),
    decreases nss.len(),
{
    if k < nss.len() {
        lemma_archivable_commitments_prefix(reg, nss.drop_last(), cutoff, k);
        assert(nss.drop_last().subrange(0, k) =~= nss.subrange(0, k));
    } else {
        assert(nss.subrange(0, k) =~= nss);
    }
}

} // verus!
