//! A Merkle accumulator fed directly with the records that plugins produce.
//!
//! Each record becomes the leaf `SHA-256(key || value)`; a key refers to the
//! leaf of its latest record.

use vstd::prelude::*;

use crate::crypto::hashing::sha256;
use crate::crypto::hashing::rs_merkle_root;
use crate::crypto::hashing::rs_tree_from_leaves;
use crate::crypto::hashing::rs_tree_root;
use crate::crypto::hashing::sha256_hash;
use crate::crypto::hashing::is_pow2;
use crate::crypto::merkle_accumulator::concat_bytes;
use crate::crypto::merkle_accumulator::fold_proof;
use crate::crypto::merkle_accumulator::leaf_hashes;
use crate::crypto::merkle_accumulator::leaves_of;
use crate::crypto::merkle_accumulator::position_of;
use crate::crypto::merkle_accumulator::prove_index;
use crate::crypto::merkle_accumulator::spec_prove;
use crate::crypto::merkle_accumulator::words_view;
use crate::types::find_key;
use crate::types::keyed_proof_view;
use crate::types::proofs_view;
use crate::types::lemma_find_key;
use crate::types::AccumulatorError;
use crate::types::CommitmentResult;
use crate::types::Entry;
use crate::types::IncomingRecord;
use crate::types::Key32;
use crate::types::Namespace;
use crate::types::Proof;
use crate::types::RawRecord;
use crate::types::namespaces_of;
use crate::app_v2::insert_namespace;
use crate::app_v2::note_namespace;

verus! {

/// What a plugin's record gives the accumulator: its namespace, key, value
/// and timestamp.
pub trait SDKTrait {
    /// The namespace, as a sequence.
    spec fn spec_namespace(&self) -> Seq<u8>;

    /// The key, as a sequence.
    spec fn spec_key(&self) -> Seq<u8>;

    /// The value, as a sequence.
    spec fn spec_value(&self) -> Seq<u8>;

    /// The timestamp.
    spec fn spec_timestamp(&self) -> u64;

    fn namespace(&self) -> (r: [u8; 32])
        ensures
            r@ == self.spec_namespace(),
    ;

    fn key(&self) -> (r: [u8; 32])
        ensures
            r@ == self.spec_key(),
    ;

    fn value(&self) -> (r: [u8; 32])
        ensures
            r@ == self.spec_value(),
    ;

    fn timestamp(&self) -> (r: u64)
        ensures
            r == self.spec_timestamp(),
    ;
}

/// The four fields of a plugin record, held by value.
#[derive(Clone, Copy, Debug)]
pub struct StandardWrapper {
    pub namespace: Namespace,
    pub key: Key32,
    pub value: [u8; 32],
    pub timestamp: u64,
}

impl SDKTrait for StandardWrapper {
    open spec fn spec_namespace(&self) -> Seq<u8> {
        self.namespace@
    }

    open spec fn spec_key(&self) -> Seq<u8> {
        self.key@
    }

    open spec fn spec_value(&self) -> Seq<u8> {
        self.value@
    }

    open spec fn spec_timestamp(&self) -> u64 {
        self.timestamp
    }

    fn namespace(&self) -> (r: [u8; 32]) {
        self.namespace
    }

    fn key(&self) -> (r: [u8; 32]) {
        self.key
    }

    fn value(&self) -> (r: [u8; 32]) {
        self.value
    }

    fn timestamp(&self) -> (r: u64) {
        self.timestamp
    }
}

impl SDKTrait for IncomingRecord {
    open spec fn spec_namespace(&self) -> Seq<u8> {
        self.namespace@
    }

    open spec fn spec_key(&self) -> Seq<u8> {
        self.key@
    }

    open spec fn spec_value(&self) -> Seq<u8> {
        self.value@
    }

    open spec fn spec_timestamp(&self) -> u64 {
        self.timestamp
    }

    fn namespace(&self) -> (r: [u8; 32]) {
        self.namespace
    }

    fn key(&self) -> (r: [u8; 32]) {
        self.key
    }

    fn value(&self) -> (r: [u8; 32]) {
        self.value
    }

    fn timestamp(&self) -> (r: u64) {
        self.timestamp
    }
}

/// Copies the four fields of any plugin record into a `StandardWrapper`.
pub fn to_sdk_trait<T: SDKTrait>(data: &T) -> (r: StandardWrapper)
    ensures
        r.namespace@ == data.spec_namespace(),
        r.key@ == data.spec_key(),
        r.value@ == data.spec_value(),
        r.timestamp == data.spec_timestamp(),
{
    let namespace = data.namespace();
    let key = data.key();
    let value = data.value();
    let timestamp = data.timestamp();
    StandardWrapper { namespace, key, value, timestamp }
}

/// The leaf of a key and a value: the hash of their concatenation.
pub open spec fn sdk_leaf(key: Seq<u8>, value: Seq<u8>) -> Seq<u8> {
    sha256(key + value)
}

/// The (key, leaf) entries of plugin records, in order.
pub open spec fn sdk_entries<T: SDKTrait>(records: Seq<T>) -> Seq<Entry> {
    records.map_values(|r: T| (r.spec_key(), sdk_leaf(r.spec_key(), r.spec_value())))
}

/// The (key, leaf) entries of raw records, in order.
pub open spec fn raw_entries(records: Seq<RawRecord>) -> Seq<Entry> {
    records.map_values(|r: RawRecord| (r.key@, sdk_leaf(r.key@, r.value@)))
}

/// The proof of the latest leaf of `key` among `s`.
pub open spec fn proof_of_key(s: Seq<Entry>, key: Seq<u8>) -> Seq<(bool, Seq<u8>)> {
    spec_prove(leaf_hashes(s), find_key(s, key) as nat)
}

/// The proofs a commit gives: for each key in `keys`, in order, that key with
/// the proof of its latest leaf among `s`.
pub open spec fn commit_proofs(s: Seq<Entry>, keys: Seq<Seq<u8>>) -> Seq<
    (Seq<u8>, Seq<(bool, Seq<u8>)>),
> {
    keys.map_values(|k: Seq<u8>| (k, proof_of_key(s, k)))
}

/// The namespaces of `records`, in order.
fn trait_namespaces<T: SDKTrait>(records: &[T]) -> (r: Vec<Namespace>)
    ensures
        namespaces_of(r@) == records@.map_values(|x: T| x.spec_namespace()),
{
    let mut out: Vec<Namespace> = Vec::new();
    let mut i: usize = 0;
    while i < records.len()
        invariant
            i <= records@.len(),
            namespaces_of(out@) == records@.map_values(|x: T| x.spec_namespace()).subrange(0, i as int),
        decreases records@.len() - i,
    {
        let n = records[i].namespace();
        let ghost before = namespaces_of(out@);
        out.push(n);
        assert(namespaces_of(out@) =~= before.push(n@));
        i += 1;
        assert(namespaces_of(out@) =~= records@.map_values(|x: T| x.spec_namespace()).subrange(
            0,
            i as int,
        ));
    }
    assert(records@.map_values(|x: T| x.spec_namespace()).subrange(0, i as int) =~= records@.map_values(
        |x: T| x.spec_namespace(),
    ));
    out
}

/// The keys of `ks`, each once, in the order of their first occurrence.
pub open spec fn distinct_keys(ks: Seq<Seq<u8>>) -> Seq<Seq<u8>>
    decreases ks.len(),
{
    if ks.len() == 0 {
        Seq::empty()
    } else {
        insert_namespace(distinct_keys(ks.drop_last()), ks.last())
    }
}

/// Every key of `distinct_keys(ks)` occurs in `ks`.
pub proof fn lemma_distinct_keys_occur(ks: Seq<Seq<u8>>)
    ensures
        forall|j: int| 0 <= j < distinct_keys(ks).len() ==> ks.contains(#[trigger] distinct_keys(ks)[j]),
    decreases ks.len(),
{
    if ks.len() > 0 {
        let d = distinct_keys(ks.drop_last());
        lemma_distinct_keys_occur(ks.drop_last());
        assert forall|j: int| 0 <= j < distinct_keys(ks).len() implies ks.contains(
            #[trigger] distinct_keys(ks)[j],
        ) by {
            if j < d.len() {
                let m = choose|m: int| 0 <= m < ks.drop_last().len() && ks.drop_last()[m] == d[j];
                assert(ks[m] == d[j]);
            } else {
                assert(ks[ks.len() - 1] == ks.last());
            }
        }
    }
}

/// The keys of `keys`, each once, in the order of their first occurrence.
pub fn distinct_key_list(keys: &Vec<Key32>) -> (r: Vec<Key32>)
    ensures
        r@.map_values(|k: Key32| k@) == distinct_keys(keys@.map_values(|k: Key32| k@)),
{
    let ghost kv = keys@.map_values(|k: Key32| k@);
    let mut out: Vec<Key32> = Vec::new();
    let mut i: usize = 0;
    while i < keys.len()
        invariant
            i <= keys@.len(),
            kv == keys@.map_values(|k: Key32| k@),
            out@.map_values(|k: Key32| k@) == distinct_keys(kv.subrange(0, i as int)),
        decreases keys@.len() - i,
    {
        proof {
            assert(kv.subrange(0, i + 1).drop_last() =~= kv.subrange(0, i as int));
            assert(kv.subrange(0, i + 1).last() == keys@[i as int]@);
        }
        note_namespace(&mut out, &keys[i]);
        i += 1;
    }
    assert(kv.subrange(0, i as int) =~= kv);
    out
}

/// A key that some entry holds has a latest entry.
proof fn lemma_held_key_found(s: Seq<Entry>, i: int)
    requires
        0 <= i < s.len(),
    ensures
        find_key(s, s[i].0) >= i,
{
    lemma_find_key(s, s[i].0);
}

/// Accumulator over `SHA-256(key || value)` leaves.
pub struct SdkAccumulator {
    entries: Vec<(Key32, [u8; 32])>,
}

impl View for SdkAccumulator {
    type V = Seq<Entry>;

    /// The (key, leaf) pairs, in the order they were added.
    closed spec fn view(&self) -> Seq<Entry> {
        words_view(self.entries@)
    }
}

impl SdkAccumulator {
    /// An empty accumulator.
    pub fn new() -> (a: Self)
        ensures
            a@ == Seq::<Entry>::empty(),
    {
        let a = SdkAccumulator { entries: Vec::new() };
        assert(a@ =~= Seq::<Entry>::empty());
        a
    }

    /// The accumulator's name.
    pub fn id(&self) -> (r: &'static str)
        ensures
            r@ == "sdk"@,
    {
        "sdk"
    }

    /// The leaf of `key` and `value`.
    pub fn leaf_hash(key: &Key32, value: &[u8]) -> (r: [u8; 32])
        ensures
            r@ == sdk_leaf(key@, value@),
    {
        let data = concat_bytes(key, value);
        sha256_hash(data.as_slice())
    }

    /// Removes every leaf.
    pub fn flush(&mut self) -> (res: Result<(), AccumulatorError>)
        ensures
            res is Ok,
            final(self)@ == Seq::<Entry>::empty(),
    {
        self.entries.clear();
        assert(self@ =~= Seq::<Entry>::empty());
        Ok(())
    }

    /// The root over all leaves; fails when there are none.
    pub fn build_root(&self) -> (res: Result<Vec<u8>, AccumulatorError>)
        ensures
            self@.len() == 0 ==> res == Err::<Vec<u8>, AccumulatorError>(
                AccumulatorError::NoLeaves,
            ),
            self@.len() > 0 ==> (res matches Ok(r) && r@ == rs_merkle_root(leaf_hashes(self@))),
    {
        if self.entries.len() == 0 {
            return Err(AccumulatorError::NoLeaves);
        }
        let leaves = leaves_of(&self.entries);
        let tree = rs_tree_from_leaves(leaves.as_slice());
        match rs_tree_root(&tree) {
            Some(r) => Ok(crate::bytes::array_to_vec(&r)),
            None => Ok(Vec::new()),
        }
    }

    /// The proof of the latest leaf of `key`; none when no leaf has that key.
    pub fn prove(&self, key: &Key32) -> (res: Result<Option<Proof>, AccumulatorError>)
        ensures
            res matches Ok(r) && (match r {
                None => find_key(self@, key@) == -1,
                Some(p) => find_key(self@, key@) >= 0 && p@ == proof_of_key(self@, key@),
            }),
            res matches Ok(Some(p)) ==> (is_pow2(self@.len()) ==> fold_proof(
                leaf_hashes(self@)[find_key(self@, key@)],
                p@,
            ) == Some(rs_merkle_root(leaf_hashes(self@)))),
    {
        match position_of(&self.entries, key) {
            None => Ok(None),
            Some(i) => Ok(Some(prove_index(&self.entries, i))),
        }
    }

    /// Appends the leaf of one plugin record.
    pub fn build<T: SDKTrait>(&mut self, data: &T) -> (res: Result<(), AccumulatorError>)
        ensures
            res is Ok,
            final(self)@ == old(self)@.push(
                (data.spec_key(), sdk_leaf(data.spec_key(), data.spec_value())),
            ),
    {
        let key = data.key();
        let value = data.value();
        let leaf = Self::leaf_hash(&key, &value);
        self.entries.push((key, leaf));
        assert(self@ =~= old(self)@.push(
            (data.spec_key(), sdk_leaf(data.spec_key(), data.spec_value())),
        ));
        Ok(())
    }

    /// For each key of `keys`, in order, that key with the proof of its
    /// latest leaf.
    fn proofs_for(&self, keys: &Vec<Key32>) -> (r: Vec<(Key32, Proof)>)
        requires
            forall|i: int| 0 <= i < keys@.len() ==> find_key(self@, #[trigger] keys@[i]@) >= 0,
        ensures
            r@.map_values(|p: (Key32, Proof)| keyed_proof_view(p)) == commit_proofs(
                self@,
                keys@.map_values(|k: Key32| k@),
            ),
    {
        let ghost kv = keys@.map_values(|k: Key32| k@);
        let mut out: Vec<(Key32, Proof)> = Vec::new();
        let mut i: usize = 0;
        while i < keys.len()
            invariant
                i <= keys@.len(),
                kv == keys@.map_values(|k: Key32| k@),
                forall|j: int| 0 <= j < keys@.len() ==> find_key(self@, #[trigger] keys@[j]@) >= 0,
                out@.map_values(|p: (Key32, Proof)| keyed_proof_view(p)) == commit_proofs(
                    self@,
                    kv,
                ).subrange(0, i as int),
            decreases keys@.len() - i,
        {
            let ghost before = out@.map_values(|p: (Key32, Proof)| keyed_proof_view(p));
            let k = keys[i];
            assert(find_key(self@, keys@[i as int]@) >= 0);
            match position_of(&self.entries, &k) {
                Some(idx) => {
                    let p = prove_index(&self.entries, idx);
                    out.push((k, p));
                    assert(out@.map_values(|p: (Key32, Proof)| keyed_proof_view(p)) =~= before.push(
                        (k@, proof_of_key(self@, k@)),
                    ));
                },
                None => {},
            }
            assert(commit_proofs(self@, kv)[i as int] == (k@, proof_of_key(self@, k@)));
            i += 1;
            assert(out@.map_values(|p: (Key32, Proof)| keyed_proof_view(p)) =~= commit_proofs(
                self@,
                kv,
            ).subrange(0, i as int));
        }
        assert(commit_proofs(self@, kv).subrange(0, i as int) =~= commit_proofs(self@, kv));
        out
    }

    /// Replaces the leaves by those of `records`, in order, and gives the
    /// root, a proof for each distinct key of the records (in the order of
    /// first occurrence), and the first record's timestamp as the commit
    /// time, with the records' namespaces and their number. Fails exactly
    /// when there are no records.
    pub fn commit_trait<T: SDKTrait>(&mut self, records: &[T]) -> (res: Result<
        CommitmentResult,
        AccumulatorError,
    >)
        ensures
            final(self)@ == sdk_entries(records@),
            records@.len() == 0 ==> res is Err,
            records@.len() > 0 ==> (res matches Ok(r) && r.commitment@ == rs_merkle_root(
                leaf_hashes(sdk_entries(records@)),
            ) && r.committed_at == records@[0].spec_timestamp() && proofs_view(r.proofs) == Some(
                commit_proofs(
                    sdk_entries(records@),
                    distinct_keys(records@.map_values(|r: T| r.spec_key())),
                ),
            ) && namespaces_of(r.namespaces@) == records@.map_values(|r: T| r.spec_namespace())
                && r.item_count == records@.len() && r.timestamp == r.committed_at),
    {
        self.entries.clear();
        let mut keys: Vec<Key32> = Vec::new();
        let mut i: usize = 0;
        while i < records.len()
            invariant
                i <= records@.len(),
                self@ == sdk_entries(records@).subrange(0, i as int),
                keys@.map_values(|k: Key32| k@) == records@.map_values(|r: T| r.spec_key()).subrange(
                    0,
                    i as int,
                ),
            decreases records@.len() - i,
        {
            let key = records[i].key();
            let value = records[i].value();
            let leaf = Self::leaf_hash(&key, &value);
            let ghost before = self@;
            let ghost kbefore = keys@.map_values(|k: Key32| k@);
            self.entries.push((key, leaf));
            keys.push(key);
            i += 1;
            assert(self@ =~= before.push((key@, leaf@)));
            assert(self@ =~= sdk_entries(records@).subrange(0, i as int));
            assert(keys@.map_values(|k: Key32| k@) =~= kbefore.push(key@));
            assert(keys@.map_values(|k: Key32| k@) =~= records@.map_values(|r: T| r.spec_key()).subrange(
                0,
                i as int,
            ));
        }
        assert(sdk_entries(records@).subrange(0, i as int) =~= sdk_entries(records@));
        assert(records@.map_values(|r: T| r.spec_key()).subrange(0, i as int) =~= records@.map_values(
            |r: T| r.spec_key(),
        ));
        let root = self.build_root();
        match root {
            Err(e) => Err(e),
            Ok(commitment) => {
                assert forall|j: int| 0 <= j < keys@.len() implies find_key(
                    self@,
                    #[trigger] keys@[j]@,
                ) >= 0 by {
                    assert(keys@[j]@ == records@.map_values(|r: T| r.spec_key())[j]);
                    assert(self@[j].0 == records@[j].spec_key());
                    lemma_held_key_found(self@, j);
                }
                let uniq = distinct_key_list(&keys);
                proof {
                    let kv = keys@.map_values(|k: Key32| k@);
                    lemma_distinct_keys_occur(kv);
                    assert forall|j: int| 0 <= j < uniq@.len() implies find_key(
                        self@,
                        #[trigger] uniq@[j]@,
                    ) >= 0 by {
                        assert(uniq@.map_values(|k: Key32| k@)[j] == uniq@[j]@);
                        assert(kv.contains(distinct_keys(kv)[j]));
                        let m = choose|m: int| 0 <= m < kv.len() && kv[m] == distinct_keys(kv)[j];
                        assert(keys@[m]@ == kv[m]);
                    }
                }
                let proofs = self.proofs_for(&uniq);
                let committed_at = records[0].timestamp();
                let namespaces = trait_namespaces(records);
                Ok(
                    CommitmentResult {
                        commitment,
                        proofs: Some(proofs),
                        committed_at,
                        namespaces,
                        item_count: records.len() as u64,
                        timestamp: committed_at,
                    },
                )
            },
        }
    }

    /// Replaces the leaves by those of `records`, in order, and gives the
    /// root and a proof for each distinct key of the records (in the order of
    /// first occurrence), committed at `now`, with the number of records and
    /// `now` as the timestamp; the records carry no namespace, so none is
    /// listed. Fails exactly when there are no records.
    pub fn commit(&mut self, records: &[RawRecord], now: u64) -> (res: Result<
        CommitmentResult,
        AccumulatorError,
    >)
        ensures
            final(self)@ == raw_entries(records@),
            records@.len() == 0 ==> res is Err,
            records@.len() > 0 ==> (res matches Ok(r) && r.commitment@ == rs_merkle_root(
                leaf_hashes(raw_entries(records@)),
            ) && r.committed_at == now && proofs_view(r.proofs) == Some(
                commit_proofs(
                    raw_entries(records@),
                    distinct_keys(records@.map_values(|r: RawRecord| r.key@)),
                ),
            ) && r.namespaces@.len() == 0 && r.item_count == records@.len() && r.timestamp == now),
    {
        self.entries.clear();
        let mut keys: Vec<Key32> = Vec::new();
        let mut i: usize = 0;
        while i < records.len()
            invariant
                i <= records@.len(),
                self@ == raw_entries(records@).subrange(0, i as int),
                keys@.map_values(|k: Key32| k@) == records@.map_values(
                    |r: RawRecord| r.key@,
                ).subrange(0, i as int),
            decreases records@.len() - i,
        {
            let key = records[i].key;
            let leaf = Self::leaf_hash(&key, records[i].value.as_slice());
            let ghost before = self@;
            let ghost kbefore = keys@.map_values(|k: Key32| k@);
            self.entries.push((key, leaf));
            keys.push(key);
            i += 1;
            assert(self@ =~= before.push((key@, leaf@)));
            assert(self@ =~= raw_entries(records@).subrange(0, i as int));
            assert(keys@.map_values(|k: Key32| k@) =~= kbefore.push(key@));
            assert(keys@.map_values(|k: Key32| k@) =~= records@.map_values(
                |r: RawRecord| r.key@,
            ).subrange(0, i as int));
        }
        assert(raw_entries(records@).subrange(0, i as int) =~= raw_entries(records@));
        assert(records@.map_values(|r: RawRecord| r.key@).subrange(0, i as int)
            =~= records@.map_values(|r: RawRecord| r.key@));
        let root = self.build_root();
        match root {
            Err(e) => Err(e),
            Ok(commitment) => {
                assert forall|j: int| 0 <= j < keys@.len() implies find_key(
                    self@,
                    #[trigger] keys@[j]@,
                ) >= 0 by {
                    assert(keys@[j]@ == records@.map_values(|r: RawRecord| r.key@)[j]);
                    assert(self@[j].0 == records@[j].key@);
                    lemma_held_key_found(self@, j);
                }
                let uniq = distinct_key_list(&keys);
                proof {
                    let kv = keys@.map_values(|k: Key32| k@);
                    lemma_distinct_keys_occur(kv);
                    assert forall|j: int| 0 <= j < uniq@.len() implies find_key(
                        self@,
                        #[trigger] uniq@[j]@,
                    ) >= 0 by {
                        assert(uniq@.map_values(|k: Key32| k@)[j] == uniq@[j]@);
                        assert(kv.contains(distinct_keys(kv)[j]));
                        let m = choose|m: int| 0 <= m < kv.len() && kv[m] == distinct_keys(kv)[j];
                        assert(keys@[m]@ == kv[m]);
                    }
                }
                let proofs = self.proofs_for(&uniq);
                Ok(
                    CommitmentResult {
                        commitment,
                        proofs: Some(proofs),
                        committed_at: now,
                        namespaces: Vec::new(),
                        item_count: records.len() as u64,
                        timestamp: now,
                    },
                )
            },
        }
    }
}

impl Default for SdkAccumulator {
    fn default() -> (r: Self)
        ensures
            r@ == Seq::<Entry>::empty(),
    {
        Self::new()
    }
}

} // verus!
