//! Plain data types shared across the library.

use vstd::prelude::*;

verus! {

/// A 32-byte key of a record.
pub type Key32 = [u8; 32];

/// A 32-byte value of a record.
pub type Value32 = [u8; 32];

/// A 32-byte namespace identifier.
pub type Namespace = [u8; 32];

/// A record as it arrives from upstream.
#[derive(Clone, Copy, Debug)]
pub struct IncomingRecord {
    pub namespace: Namespace,
    pub key: Key32,
    pub value: Value32,
    pub timestamp: u64,
}

/// The root committed for a namespace at a time.
#[derive(Debug)]
pub struct Commitment {
    pub namespace: Namespace,
    pub root: Vec<u8>,
    pub committed_at: u64,
}

/// A commitment as plain values: namespace, root, time.
pub type CommitmentView = (Seq<u8>, Seq<u8>, u64);

impl View for Commitment {
    type V = CommitmentView;

    open spec fn view(&self) -> CommitmentView {
        (self.namespace@, self.root@, self.committed_at)
    }
}

impl Commitment {
    /// A copy of this commitment.
    pub fn copy(&self) -> (r: Commitment)
        ensures
            r@ == self@,
    {
        Commitment {
            namespace: self.namespace,
            root: crate::bytes::copy_bytes(&self.root),
            committed_at: self.committed_at,
        }
    }
}

/// A commitment with the number of leaves it covers.
#[derive(Debug)]
pub struct BatchCommitmentMeta {
    pub commitment: Commitment,
    pub leaf_count: u64,
}

/// A batch commitment as plain values.
pub type MetaView = (CommitmentView, u64);

impl View for BatchCommitmentMeta {
    type V = MetaView;

    open spec fn view(&self) -> MetaView {
        (self.commitment@, self.leaf_count)
    }
}

impl BatchCommitmentMeta {
    /// A copy of this batch commitment.
    pub fn copy(&self) -> (r: BatchCommitmentMeta)
        ensures
            r@ == self@,
    {
        BatchCommitmentMeta { commitment: self.commitment.copy(), leaf_count: self.leaf_count }
    }
}

/// Selects the latest commitment of a namespace made no later than a time.
#[derive(Clone, Copy, Debug)]
pub struct CommitmentFilterOptions {
    pub namespace: Namespace,
    pub time: u64,
}

/// A proof kept for a key of a committed batch, with the batch's root,
/// namespace and commit time.
#[derive(Debug)]
pub struct StoredProof {
    pub root: Vec<u8>,
    pub proof: Proof,
    pub key: Key32,
    pub namespace: Namespace,
    pub committed_at: u64,
}

/// A stored proof as plain values: root, proof steps, key, namespace, time.
pub type StoredProofView = (Seq<u8>, Seq<(bool, Seq<u8>)>, Seq<u8>, Seq<u8>, u64);

impl View for StoredProof {
    type V = StoredProofView;

    open spec fn view(&self) -> StoredProofView {
        (self.root@, self.proof@, self.key@, self.namespace@, self.committed_at)
    }
}

impl StoredProof {
    /// A copy of this stored proof.
    pub fn copy(&self) -> (r: StoredProof)
        ensures
            r@ == self@,
    {
        StoredProof {
            root: crate::bytes::copy_bytes(&self.root),
            proof: self.proof.copy(),
            key: self.key,
            namespace: self.namespace,
            committed_at: self.committed_at,
        }
    }
}

/// Copies of a list of stored proofs.
pub fn copy_stored_proofs(v: &Vec<StoredProof>) -> (r: Vec<StoredProof>)
    ensures
        r@.map_values(|p: StoredProof| p@) == v@.map_values(|p: StoredProof| p@),
{
    let mut out: Vec<StoredProof> = Vec::new();
    let mut i: usize = 0;
    while i < v.len()
        invariant
            i <= v@.len(),
            out@.map_values(|p: StoredProof| p@) == v@.map_values(|p: StoredProof| p@).subrange(
                0,
                i as int,
            ),
        decreases v@.len() - i,
    {
        let ghost before = out@.map_values(|p: StoredProof| p@);
        let c = v[i].copy();
        out.push(c);
        assert(out@.map_values(|p: StoredProof| p@) =~= before.push(c@));
        i += 1;
        assert(out@.map_values(|p: StoredProof| p@) =~= v@.map_values(|p: StoredProof| p@).subrange(
            0,
            i as int,
        ));
    }
    assert(v@.map_values(|p: StoredProof| p@).subrange(0, i as int) =~= v@.map_values(
        |p: StoredProof| p@,
    ));
    out
}

/// One step of an inclusion proof: the sibling hash and whether it stands
/// on the left of the running hash.
#[derive(Debug)]
pub struct ProofNode {
    pub is_left: bool,
    pub sibling: Vec<u8>,
}

/// An inclusion proof: the steps from a leaf up to the root.
#[derive(Debug)]
pub struct Proof {
    pub nodes: Vec<ProofNode>,
}

/// A proof step as a plain value.
pub open spec fn node_view(n: ProofNode) -> (bool, Seq<u8>) {
    (n.is_left, n.sibling@)
}

impl View for Proof {
    type V = Seq<(bool, Seq<u8>)>;

    /// The steps, bottom up.
    open spec fn view(&self) -> Seq<(bool, Seq<u8>)> {
        self.nodes@.map_values(|n: ProofNode| node_view(n))
    }
}

impl Proof {
    /// A copy of this proof.
    pub fn copy(&self) -> (r: Proof)
        ensures
            r@ == self@,
    {
        let mut nodes: Vec<ProofNode> = Vec::new();
        let mut i: usize = 0;
        while i < self.nodes.len()
            invariant
                i <= self.nodes@.len(),
                nodes@.map_values(|n: ProofNode| node_view(n)) == self@.subrange(0, i as int),
            decreases self.nodes@.len() - i,
        {
            let ghost before = nodes@.map_values(|n: ProofNode| node_view(n));
            let n = ProofNode {
                is_left: self.nodes[i].is_left,
                sibling: crate::bytes::copy_bytes(&self.nodes[i].sibling),
            };
            let ghost nv = node_view(n);
            nodes.push(n);
            assert(nodes@.map_values(|n: ProofNode| node_view(n)) =~= before.push(nv));
            assert(self@[i as int] == nv);
            i += 1;
            assert(nodes@.map_values(|n: ProofNode| node_view(n)) =~= self@.subrange(0, i as int));
        }
        assert(self@.subrange(0, i as int) =~= self@);
        Proof { nodes }
    }
}

/// Why an accumulator operation failed.
#[derive(Clone, Copy, Debug, PartialEq, Eq)]
pub enum AccumulatorError {
    /// A root was asked of an accumulator that holds no leaves.
    NoLeaves,
    /// A commit was asked for no records.
    EmptyRecords,
}

/// A record as an accumulator receives it: a key and value bytes.
#[derive(Debug)]
pub struct RawRecord {
    pub key: Key32,
    pub value: Vec<u8>,
}

/// A record with its namespace, as the sparse Merkle accumulator receives it.
#[derive(Debug)]
pub struct Record {
    pub namespace: Namespace,
    pub key: Key32,
    pub value: Vec<u8>,
}

/// The namespaces of `records`, in order.
pub open spec fn record_namespaces_view(records: Seq<Record>) -> Seq<Seq<u8>> {
    records.map_values(|r: Record| r.namespace@)
}

/// The namespaces of `records`, in order.
pub fn record_namespaces(records: &[Record]) -> (r: Vec<Namespace>)
    ensures
        namespaces_of(r@) == record_namespaces_view(records@),
{
    let mut out: Vec<Namespace> = Vec::new();
    let mut i: usize = 0;
    while i < records.len()
        invariant
            i <= records@.len(),
            namespaces_of(out@) == record_namespaces_view(records@).subrange(0, i as int),
        decreases records@.len() - i,
    {
        let ghost before = namespaces_of(out@);
        out.push(records[i].namespace);
        assert(namespaces_of(out@) =~= before.push(records@[i as int].namespace@));
        i += 1;
        assert(namespaces_of(out@) =~= record_namespaces_view(records@).subrange(0, i as int));
    }
    assert(record_namespaces_view(records@).subrange(0, i as int) =~= record_namespaces_view(records@));
    out
}

/// Namespaces as sequences.
pub open spec fn namespaces_of(s: Seq<Namespace>) -> Seq<Seq<u8>> {
    s.map_values(|n: Namespace| n@)
}

/// What a commit of a batch produces: the root, a proof for each record's
/// key, the time of the commit, the namespaces of the committed records in
/// order (none where the records carry no namespace), how many records
/// there were, and the time the result was made.
#[derive(Debug)]
pub struct CommitmentResult {
    pub commitment: Vec<u8>,
    pub proofs: Option<Vec<(Key32, Proof)>>,
    pub committed_at: u64,
    pub namespaces: Vec<Namespace>,
    pub item_count: u64,
    pub timestamp: u64,
}

/// A commitment result as plain values: root, proofs, commit time,
/// namespaces, item count, timestamp.
pub type ResultView = (
    Seq<u8>,
    Option<Seq<(Seq<u8>, Seq<(bool, Seq<u8>)>)>>,
    u64,
    Seq<Seq<u8>>,
    u64,
    u64,
);

impl View for CommitmentResult {
    type V = ResultView;

    open spec fn view(&self) -> ResultView {
        (
            self.commitment@,
            proofs_view(self.proofs),
            self.committed_at,
            namespaces_of(self.namespaces@),
            self.item_count,
            self.timestamp,
        )
    }
}

impl CommitmentResult {
    /// A copy of this result.
    pub fn copy(&self) -> (r: CommitmentResult)
        ensures
            r@ == self@,
    {
        let proofs = match &self.proofs {
            None => None,
            Some(v) => {
                let mut out: Vec<(Key32, Proof)> = Vec::new();
                let mut i: usize = 0;
                while i < v.len()
                    invariant
                        i <= v@.len(),
                        out@.map_values(|x: (Key32, Proof)| keyed_proof_view(x)) == v@.map_values(
                            |x: (Key32, Proof)| keyed_proof_view(x),
                        ).subrange(0, i as int),
                    decreases v@.len() - i,
                {
                    let ghost before = out@.map_values(|x: (Key32, Proof)| keyed_proof_view(x));
                    let item = (v[i].0, v[i].1.copy());
                    let ghost iv = keyed_proof_view(item);
                    out.push(item);
                    assert(out@.map_values(|x: (Key32, Proof)| keyed_proof_view(x)) =~= before.push(iv));
                    i += 1;
                    assert(out@.map_values(|x: (Key32, Proof)| keyed_proof_view(x)) =~= v@.map_values(
                        |x: (Key32, Proof)| keyed_proof_view(x),
                    ).subrange(0, i as int));
                }
                assert(v@.map_values(|x: (Key32, Proof)| keyed_proof_view(x)).subrange(0, i as int)
                    =~= v@.map_values(|x: (Key32, Proof)| keyed_proof_view(x)));
                Some(out)
            },
        };
        let namespaces = crate::app_v2::copy_namespaces(&self.namespaces);
        CommitmentResult {
            commitment: crate::bytes::copy_bytes(&self.commitment),
            proofs,
            committed_at: self.committed_at,
            namespaces,
            item_count: self.item_count,
            timestamp: self.timestamp,
        }
    }
}

/// The proofs of a commitment result, as plain values.
pub open spec fn proofs_view(p: Option<Vec<(Key32, Proof)>>) -> Option<
    Seq<(Seq<u8>, Seq<(bool, Seq<u8>)>)>,
> {
    match p {
        None => None,
        Some(v) => Some(v@.map_values(|x: (Key32, Proof)| keyed_proof_view(x))),
    }
}

/// A key with its proof, as plain values.
pub open spec fn keyed_proof_view(p: (Key32, Proof)) -> (Seq<u8>, Seq<(bool, Seq<u8>)>) {
    (p.0@, p.1@)
}

/// A key and a value, as sequences.
pub type Entry = (Seq<u8>, Seq<u8>);

/// Index of the last entry of `s` whose key is `k`, or -1 when none is.
pub open spec fn find_key(s: Seq<Entry>, k: Seq<u8>) -> int
    decreases s.len(),
{
    if s.len() == 0 {
        -1
    } else if s.last().0 == k {
        s.len() - 1
    } else {
        find_key(s.drop_last(), k)
    }
}

/// `find_key` gives -1 or the index of an entry with key `k`, with no later one.
pub proof fn lemma_find_key(s: Seq<Entry>, k: Seq<u8>)
    ensures
        -1 <= find_key(s, k) < s.len(),
        find_key(s, k) >= 0 ==> s[find_key(s, k)].0 == k,
        forall|j: int| find_key(s, k) < j < s.len() ==> #[trigger] s[j].0 != k,
    decreases s.len(),
{
    if s.len() > 0 && s.last().0 != k {
        lemma_find_key(s.drop_last(), k);
        assert forall|j: int| find_key(s, k) < j < s.len() implies #[trigger] s[j].0 != k by {
            if j < s.len() - 1 {
                assert(s.drop_last()[j] == s[j]);
            }
        }
    }
}

/// The value stored under `k`, if any.
pub open spec fn lookup(s: Seq<Entry>, k: Seq<u8>) -> Option<Seq<u8>> {
    let i = find_key(s, k);
    if i >= 0 {
        Some(s[i].1)
    } else {
        None
    }
}

/// `s` with `k` mapped to `v`: the entry for `k` is replaced in place, or a
/// new entry is appended.
pub open spec fn spec_put(s: Seq<Entry>, k: Seq<u8>, v: Seq<u8>) -> Seq<Entry> {
    let i = find_key(s, k);
    if i >= 0 {
        s.update(i, (k, v))
    } else {
        s.push((k, v))
    }
}

/// After `k` is mapped to `v`, looking `k` up gives `v`, and every other key
/// gives what it gave before.
pub proof fn lemma_put_lookup(s: Seq<Entry>, k: Seq<u8>, v: Seq<u8>, other: Seq<u8>)
    ensures
        lookup(spec_put(s, k, v), k) == Some(v),
        other != k ==> lookup(spec_put(s, k, v), other) == lookup(s, other),
        spec_put(s, k, v).len() == (if find_key(s, k) >= 0 { s.len() } else { s.len() + 1 }),
{
    lemma_find_key(s, k);
    lemma_find_key(s, other);
    let t = spec_put(s, k, v);
    lemma_find_key(t, k);
    lemma_find_key(t, other);
    let i = find_key(s, k);
    if i >= 0 {
        assert(t[i].0 == k);
        assert(find_key(t, k) == i);
        if other != k {
            let jo = find_key(s, other);
            let jt = find_key(t, other);
            if jt >= 0 {
                assert(t[jt].0 == other);
                assert(jt != i);
                assert(s[jt].0 == other);
            }
            if jo >= 0 {
                assert(jo != i);
                assert(t[jo].0 == other);
            }
            assert(jo == jt);
        }
    } else {
        assert(t.last().0 == k);
        assert(t.drop_last() =~= s);
        if other != k {
            assert(find_key(t, other) == find_key(s, other));
        }
    }
}

} // verus!
