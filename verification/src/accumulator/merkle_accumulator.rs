//! A batch Merkle accumulator whose leaves are `SHA-256(key || value)`: a
//! commit replaces the leaves by those of the records, gives the root (32
//! zero bytes when there are none) and a proof for each record's key.

use vstd::prelude::*;

use crate::accumulator::sdk_accumulator::commit_proofs;
use crate::accumulator::sdk_accumulator::distinct_key_list;
use crate::accumulator::sdk_accumulator::distinct_keys;
use crate::accumulator::sdk_accumulator::lemma_distinct_keys_occur;
use crate::accumulator::sdk_accumulator::proof_of_key;
use crate::accumulator::sdk_accumulator::raw_entries;
use crate::accumulator::sdk_accumulator::sdk_leaf;
use crate::bytes::eq32;
use crate::crypto::hashing::rs_merkle_root;
use crate::crypto::hashing::rs_tree_from_leaves;
use crate::crypto::hashing::rs_tree_root;
use crate::crypto::hashing::sha256_hash;
use crate::crypto::hashing::is_pow2;
use crate::crypto::merkle_accumulator::concat_bytes;
use crate::crypto::merkle_accumulator::fold_proof;
use crate::crypto::merkle_accumulator::fold_nodes;
use crate::crypto::merkle_accumulator::leaf_hashes;
use crate::crypto::merkle_accumulator::leaves_of;
use crate::crypto::merkle_accumulator::merkle_root_or_zero;
use crate::crypto::merkle_accumulator::position_of;
use crate::crypto::merkle_accumulator::proof_reaches;
use crate::crypto::merkle_accumulator::prove_index;
use crate::crypto::merkle_accumulator::words_view;
use crate::types::find_key;
use crate::types::keyed_proof_view;
use crate::types::lemma_find_key;
use crate::types::proofs_view;
use crate::types::AccumulatorError;
use crate::types::CommitmentResult;
use crate::types::Entry;
use crate::types::Key32;
use crate::types::Proof;
use crate::types::RawRecord;
use crate::types::Value32;

verus! {

/// For each key of `keys`, in order, that key with the proof of its latest
/// leaf among `s`, or with none when it has no leaf.
pub open spec fn proofs_or_none(s: Seq<Entry>, keys: Seq<Seq<u8>>) -> Seq<
    (Seq<u8>, Option<Seq<(bool, Seq<u8>)>>),
> {
    keys.map_values(
        |k: Seq<u8>|
            (k, if find_key(s, k) >= 0 {
                Some(proof_of_key(s, k))
            } else {
                None
            }),
    )
}

/// A key with its proof, if any, as plain values.
pub open spec fn maybe_proof_view(p: (Key32, Option<Proof>)) -> (
    Seq<u8>,
    Option<Seq<(bool, Seq<u8>)>>,
) {
    (
        p.0@,
        match p.1 {
            Some(q) => Some(q@),
            None => None,
        },
    )
}

/// A proof that leads from the latest leaf of `key` to the root, when that
/// leaf is the leaf of `key` and `value`, verifies them against the root.
pub proof fn law_keyed_prove_then_verify(s: Seq<Entry>, key: Seq<u8>, value: Seq<u8>, p: Proof)
    requires
        find_key(s, key) >= 0,
        s[find_key(s, key)].1 == sdk_leaf(key, value),
        fold_proof(leaf_hashes(s)[find_key(s, key)], p@) == Some(rs_merkle_root(leaf_hashes(s))),
    ensures
        proof_reaches(merkle_root_or_zero(leaf_hashes(s)), sdk_leaf(key, value), Some(&p)),
{
    lemma_find_key(s, key);
    assert(leaf_hashes(s)[find_key(s, key)] == s[find_key(s, key)].1);
}

/// Merkle accumulator over `SHA-256(key || value)` leaves.
pub struct MerkleAccumulator {
    entries: Vec<(Key32, [u8; 32])>,
}

impl View for MerkleAccumulator {
    type V = Seq<Entry>;

    /// The (key, leaf) pairs, in the order they were added.
    closed spec fn view(&self) -> Seq<Entry> {
        words_view(self.entries@)
    }
}

impl MerkleAccumulator {
    /// An empty accumulator.
    pub fn new() -> (a: Self)
        ensures
            a@ == Seq::<Entry>::empty(),
    {
        let a = MerkleAccumulator { entries: Vec::new() };
        assert(a@ =~= Seq::<Entry>::empty());
        a
    }

    /// The accumulator's name.
    pub fn id(&self) -> (r: &'static str)
        ensures
            r@ == "merkle"@,
    {
        "merkle"
    }

    /// The leaf of `key` and `value`.
    pub fn leaf_hash(key: &Key32, value: &[u8]) -> (r: [u8; 32])
        ensures
            r@ == sdk_leaf(key@, value@),
    {
        let data = concat_bytes(key, value);
        sha256_hash(data.as_slice())
    }

    /// Appends the leaf of `key` and `value`.
    pub fn put(&mut self, key: Key32, value: Value32) -> (res: Result<(), AccumulatorError>)
        ensures
            res is Ok,
            final(self)@ == old(self)@.push((key@, sdk_leaf(key@, value@))),
    {
        let leaf = Self::leaf_hash(&key, &value);
        self.entries.push((key, leaf));
        assert(self@ =~= old(self)@.push((key@, sdk_leaf(key@, value@))));
        Ok(())
    }

    /// The root over all leaves; 32 zero bytes when there are none.
    pub fn build_root(&self) -> (res: Result<Vec<u8>, AccumulatorError>)
        ensures
            res matches Ok(r) && r@ == merkle_root_or_zero(leaf_hashes(self@)),
    {
        if self.entries.len() == 0 {
            let z = [0u8; 32];
            let v = crate::bytes::array_to_vec(&z);
            assert(v@ =~= crate::bytes::zero32());
            return Ok(v);
        }
        let leaves = leaves_of(&self.entries);
        let tree = rs_tree_from_leaves(leaves.as_slice());
        match rs_tree_root(&tree) {
            Some(r) => Ok(crate::bytes::array_to_vec(&r)),
            None => {
                let z = [0u8; 32];
                let v = crate::bytes::array_to_vec(&z);
                assert(v@ =~= crate::bytes::zero32());
                Ok(v)
            },
        }
    }

    /// Removes every leaf.
    pub fn flush(&mut self) -> (res: Result<(), AccumulatorError>)
        ensures
            res is Ok,
            final(self)@ == Seq::<Entry>::empty(),
    {
        self.entries.clear();
        assert(self@ =~= Seq::<Entry>::empty());
        Ok(())
    }

    /// The proof of the latest leaf of `key`; none when no leaf has that key.
    pub fn prove(&self, key: &Key32) -> (res: Result<Option<Proof>, AccumulatorError>)
        ensures
            res matches Ok(r) && (match r {
                None => find_key(self@, key@) == -1,
                Some(p) => find_key(self@, key@) >= 0 && p@ == proof_of_key(self@, key@),
            }),
            res matches Ok(Some(p)) ==> (is_pow2(self@.len()) ==> fold_proof(
                leaf_hashes(self@)[find_key(self@, key@)],
                p@,
            ) == Some(rs_merkle_root(leaf_hashes(self@)))),
    {
        match position_of(&self.entries, key) {
            None => Ok(None),
            Some(i) => Ok(Some(prove_index(&self.entries, i))),
        }
    }

    /// For each key of `keys`, in order, that key with the proof of its
    /// latest leaf, or with none when no leaf has that key.
    pub fn prove_many(&self, keys: &[Key32]) -> (res: Result<
        Vec<(Key32, Option<Proof>)>,
        AccumulatorError,
    >)
        ensures
            res matches Ok(v) && v@.map_values(|p: (Key32, Option<Proof>)| maybe_proof_view(p))
                == proofs_or_none(self@, keys@.map_values(|k: Key32| k@)),
    {
        let ghost kv = keys@.map_values(|k: Key32| k@);
        let mut out: Vec<(Key32, Option<Proof>)> = Vec::new();
        let mut i: usize = 0;
        while i < keys.len()
            invariant
                i <= keys@.len(),
                kv == keys@.map_values(|k: Key32| k@),
                out@.map_values(|p: (Key32, Option<Proof>)| maybe_proof_view(p)) == proofs_or_none(
                    self@,
                    kv,
                ).subrange(0, i as int),
            decreases keys@.len() - i,
        {
            let ghost before = out@.map_values(|p: (Key32, Option<Proof>)| maybe_proof_view(p));
            let k = keys[i];
            let item = match position_of(&self.entries, &k) {
                None => (k, None),
                Some(idx) => (k, Some(prove_index(&self.entries, idx))),
            };
            let ghost iv = maybe_proof_view(item);
            out.push(item);
            assert(proofs_or_none(self@, kv)[i as int] == iv);
            assert(out@.map_values(|p: (Key32, Option<Proof>)| maybe_proof_view(p)) =~= before.push(
                iv,
            ));
            i += 1;
            assert(out@.map_values(|p: (Key32, Option<Proof>)| maybe_proof_view(p))
                =~= proofs_or_none(self@, kv).subrange(0, i as int));
        }
        assert(proofs_or_none(self@, kv).subrange(0, i as int) =~= proofs_or_none(self@, kv));
        Ok(out)
    }

    /// Whether `maybe_proof` leads from the leaf of `key` and `value` to
    /// `root`: each sibling must be 32 bytes long, and an absent proof never
    /// holds.
    pub fn verify_proof(
        &self,
        root: &[u8; 32],
        key: &Key32,
        value: &[u8],
        maybe_proof: Option<&Proof>,
    ) -> (res: Result<bool, AccumulatorError>)
        ensures
            res == Ok::<bool, AccumulatorError>(
                proof_reaches(root@, sdk_leaf(key@, value@), maybe_proof),
            ),
    {
        match maybe_proof {
            None => Ok(false),
            Some(p) => {
                let start = Self::leaf_hash(key, value);
                match fold_nodes(start, &p.nodes) {
                    None => Ok(false),
                    Some(h) => Ok(eq32(&h, root)),
                }
            },
        }
    }

    /// Whether `value` is 32 bytes long and the latest leaf of `key` is the
    /// leaf of the key and value.
    pub fn verify_inclusion(&self, key: &Key32, value: &[u8]) -> (res: Result<
        bool,
        AccumulatorError,
    >)
        ensures
            res == Ok::<bool, AccumulatorError>(
                value@.len() == 32 && find_key(self@, key@) >= 0 && self@[find_key(
                    self@,
                    key@,
                )].1 == sdk_leaf(key@, value@),
            ),
    {
        if value.len() != 32 {
            return Ok(false);
        }
        match position_of(&self.entries, key) {
            None => Ok(false),
            Some(i) => {
                let leaf = Self::leaf_hash(key, value);
                Ok(eq32(&self.entries[i].1, &leaf))
            },
        }
    }

    /// Never holds: this accumulator gives no proof of absence.
    pub fn verify_non_inclusion(&self, key: &Key32) -> (res: Result<bool, AccumulatorError>)
        ensures
            res == Ok::<bool, AccumulatorError>(false),
    {
        Ok(false)
    }

    /// Replaces the leaves by those of `records`, in order, and gives the
    /// root (32 zero bytes when there are no records) and a proof for each
    /// distinct key of the records (in the order of first occurrence),
    /// committed at `now`, with the number of records and `now` as the
    /// timestamp; the records carry no namespace, so none is listed.
    pub fn commit(&mut self, records: &[RawRecord], now: u64) -> (res: Result<
        CommitmentResult,
        AccumulatorError,
    >)
        ensures
            final(self)@ == raw_entries(records@),
            res matches Ok(r) && r.commitment@ == merkle_root_or_zero(
                leaf_hashes(raw_entries(records@)),
            ) && r.committed_at == now && proofs_view(r.proofs) == Some(
                commit_proofs(
                    raw_entries(records@),
                    distinct_keys(records@.map_values(|r: RawRecord| r.key@)),
                ),
            ) && r.namespaces@.len() == 0 && r.item_count == records@.len() && r.timestamp == now,
    {
        self.entries.clear();
        let mut keys: Vec<Key32> = Vec::new();
        let mut i: usize = 0;
        while i < records.len()
            invariant
                i <= records@.len(),
                self@ == raw_entries(records@).subrange(0, i as int),
                keys@.map_values(|k: Key32| k@) == records@.map_values(
                    |r: RawRecord| r.key@,
                ).subrange(0, i as int),
            decreases records@.len() - i,
        {
            let key = records[i].key;
            let leaf = Self::leaf_hash(&key, records[i].value.as_slice());
            let ghost before = self@;
            let ghost kbefore = keys@.map_values(|k: Key32| k@);
            self.entries.push((key, leaf));
            keys.push(key);
            i += 1;
            assert(self@ =~= before.push((key@, leaf@)));
            assert(self@ =~= raw_entries(records@).subrange(0, i as int));
            assert(keys@.map_values(|k: Key32| k@) =~= kbefore.push(key@));
            assert(keys@.map_values(|k: Key32| k@) =~= records@.map_values(
                |r: RawRecord| r.key@,
            ).subrange(0, i as int));
        }
        assert(raw_entries(records@).subrange(0, i as int) =~= raw_entries(records@));
        assert(records@.map_values(|r: RawRecord| r.key@).subrange(0, i as int)
            =~= records@.map_values(|r: RawRecord| r.key@));
        let root = self.build_root();
        let commitment = match root {
            Ok(r) => r,
            Err(_) => Vec::new(),
        };
        let uniq = distinct_key_list(&keys);
        let ghost all = keys@.map_values(|k: Key32| k@);
        let ghost kv = uniq@.map_values(|k: Key32| k@);
        proof {
            lemma_distinct_keys_occur(all);
        }
        let many = self.prove_many(uniq.as_slice());
        let pairs = match many {
            Ok(v) => v,
            Err(_) => Vec::new(),
        };
        assert(pairs@.map_values(|p: (Key32, Option<Proof>)| maybe_proof_view(p)).len()
            == pairs@.len());
        assert(proofs_or_none(self@, kv).len() == kv.len());
        let mut proofs: Vec<(Key32, Proof)> = Vec::new();
        let mut j: usize = 0;
        while j < pairs.len()
            invariant
                j <= pairs@.len(),
                pairs@.len() == kv.len(),
                all == records@.map_values(|r: RawRecord| r.key@),
                kv == distinct_keys(all),
                forall|j: int| 0 <= j < distinct_keys(all).len() ==> all.contains(#[trigger] distinct_keys(all)[j]),
                self@ == raw_entries(records@),
                pairs@.map_values(|p: (Key32, Option<Proof>)| maybe_proof_view(p)) == proofs_or_none(
                    self@,
                    kv,
                ),
                proofs@.map_values(|x: (Key32, Proof)| keyed_proof_view(x)) == commit_proofs(
                    self@,
                    kv,
                ).subrange(0, j as int),
            decreases pairs@.len() - j,
        {
            let ghost before = proofs@.map_values(|x: (Key32, Proof)| keyed_proof_view(x));
            proof {
                assert(all.contains(kv[j as int]));
                let m = choose|m: int| 0 <= m < all.len() && all[m] == kv[j as int];
                assert(self@[m].0 == records@[m].key@);
                lemma_find_key(self@, self@[m].0);
                assert(proofs_or_none(self@, kv)[j as int] == maybe_proof_view(pairs@[j as int]));
            }
            let k = pairs[j].0;
            match &pairs[j].1 {
                Some(p) => {
                    let item = (k, p.copy());
                    let ghost iv = keyed_proof_view(item);
                    proofs.push(item);
                    assert(proofs@.map_values(|x: (Key32, Proof)| keyed_proof_view(x)) =~= before.push(
                        iv,
                    ));
                },
                None => {
                    assert(false);
                },
            }
            j += 1;
            assert(proofs@.map_values(|x: (Key32, Proof)| keyed_proof_view(x)) =~= commit_proofs(
                self@,
                kv,
            ).subrange(0, j as int));
        }
        assert(commit_proofs(self@, kv).subrange(0, j as int) =~= commit_proofs(self@, kv));
        Ok(
            CommitmentResult {
                commitment,
                proofs: Some(proofs),
                committed_at: now,
                namespaces: Vec::new(),
                item_count: records.len() as u64,
                timestamp: now,
            },
        )
    }
}

impl Default for MerkleAccumulator {
    fn default() -> (r: Self)
        ensures
            r@ == Seq::<Entry>::empty(),
    {
        Self::new()
    }
}

} // verus!
