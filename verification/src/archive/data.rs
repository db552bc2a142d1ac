//! What can be archived, and how archives are selected.

use vstd::prelude::*;

use crate::types::BatchCommitmentMeta;
use crate::types::IncomingRecord;
use crate::types::MetaView;
use crate::types::Namespace;
use crate::types::StoredProof;
use crate::types::StoredProofView;

verus! {

/// One item to archive.
#[derive(Debug)]
pub enum ArchiveData {
    Commitment(BatchCommitmentMeta),
    Record(IncomingRecord),
    Proof(StoredProof),
    CommitmentBatch(Vec<BatchCommitmentMeta>),
    RecordBatch(Vec<IncomingRecord>),
    ProofBatch(Vec<StoredProof>),
}

/// An archived item as plain values.
pub enum ArchiveDataView {
    Commitment(MetaView),
    Record(IncomingRecord),
    Proof(StoredProofView),
    CommitmentBatch(Seq<MetaView>),
    RecordBatch(Seq<IncomingRecord>),
    ProofBatch(Seq<StoredProofView>),
}

impl View for ArchiveData {
    type V = ArchiveDataView;

    open spec fn view(&self) -> ArchiveDataView {
        match self {
            ArchiveData::Commitment(m) => ArchiveDataView::Commitment(m@),
            ArchiveData::Record(r) => ArchiveDataView::Record(*r),
            ArchiveData::Proof(p) => ArchiveDataView::Proof(p@),
            ArchiveData::CommitmentBatch(b) => ArchiveDataView::CommitmentBatch(
                b@.map_values(|m: BatchCommitmentMeta| m@),
            ),
            ArchiveData::RecordBatch(b) => ArchiveDataView::RecordBatch(b@),
            ArchiveData::ProofBatch(b) => ArchiveDataView::ProofBatch(
                b@.map_values(|p: StoredProof| p@),
            ),
        }
    }
}

/// Selects archives, by namespace when one is given.
#[derive(Clone, Copy, Debug)]
pub struct ArchiveFilter {
    pub namespace: Option<Namespace>,
}

/// Whether an archived item falls under a namespace filter: a commitment or
/// record of that namespace, a batch holding one, or any proof (proofs carry
/// no namespace of their own here).
pub open spec fn archive_matches(d: ArchiveDataView, ns: Option<Seq<u8>>) -> bool {
    match ns {
        None => true,
        Some(n) => match d {
            ArchiveDataView::Commitment(m) => m.0.0 == n,
            ArchiveDataView::Record(r) => r.namespace@ == n,
            ArchiveDataView::Proof(_) => true,
            ArchiveDataView::CommitmentBatch(b) => metas_have_namespace(b, n),
            ArchiveDataView::RecordBatch(b) => records_have_namespace(b, n),
            ArchiveDataView::ProofBatch(_) => true,
        },
    }
}

/// Whether some commitment of a batch belongs to namespace `n`.
pub open spec fn metas_have_namespace(b: Seq<MetaView>, n: Seq<u8>) -> bool {
    exists|i: int| 0 <= i < b.len() && (#[trigger] b[i]).0.0 == n
}

/// Whether some record of a batch belongs to namespace `n`.
pub open spec fn records_have_namespace(b: Seq<IncomingRecord>, n: Seq<u8>) -> bool {
    exists|i: int| 0 <= i < b.len() && (#[trigger] b[i]).namespace@ == n
}

/// The namespace of a filter, as a plain value.
pub open spec fn filter_namespace(f: ArchiveFilter) -> Option<Seq<u8>> {
    match f.namespace {
        None => None,
        Some(n) => Some(n@),
    }
}

/// Copies of a list of batch commitments.
pub fn copy_metas(v: &Vec<BatchCommitmentMeta>) -> (r: Vec<BatchCommitmentMeta>)
    ensures
        r@.map_values(|m: BatchCommitmentMeta| m@) == v@.map_values(|m: BatchCommitmentMeta| m@),
{
    let mut out: Vec<BatchCommitmentMeta> = Vec::new();
    let mut i: usize = 0;
    while i < v.len()
        invariant
            i <= v@.len(),
            out@.map_values(|m: BatchCommitmentMeta| m@) == v@.map_values(
                |m: BatchCommitmentMeta| m@,
            ).subrange(0, i as int),
        decreases v@.len() - i,
    {
        let ghost before = out@.map_values(|m: BatchCommitmentMeta| m@);
        let c = v[i].copy();
        out.push(c);
        assert(out@.map_values(|m: BatchCommitmentMeta| m@) =~= before.push(c@));
        i += 1;
        assert(out@.map_values(|m: BatchCommitmentMeta| m@) =~= v@.map_values(
            |m: BatchCommitmentMeta| m@,
        ).subrange(0, i as int));
    }
    assert(v@.map_values(|m: BatchCommitmentMeta| m@).subrange(0, i as int) =~= v@.map_values(
        |m: BatchCommitmentMeta| m@,
    ));
    out
}

/// A copy of a list of records.
pub fn copy_records(v: &Vec<IncomingRecord>) -> (r: Vec<IncomingRecord>)
    ensures
        r@ == v@,
{
    let mut out: Vec<IncomingRecord> = Vec::new();
    let mut i: usize = 0;
    while i < v.len()
        invariant
            i <= v@.len(),
            out@ == v@.subrange(0, i as int),
        decreases v@.len() - i,
    {
        out.push(v[i]);
        i += 1;
        assert(out@ =~= v@.subrange(0, i as int));
    }
    assert(v@.subrange(0, i as int) =~= v@);
    out
}

impl ArchiveData {
    /// A copy of this item.
    pub fn copy(&self) -> (r: ArchiveData)
        ensures
            r@ == self@,
    {
        match self {
            ArchiveData::Commitment(m) => ArchiveData::Commitment(m.copy()),
            ArchiveData::Record(r) => ArchiveData::Record(*r),
            ArchiveData::Proof(p) => ArchiveData::Proof(p.copy()),
            ArchiveData::CommitmentBatch(b) => ArchiveData::CommitmentBatch(copy_metas(b)),
            ArchiveData::RecordBatch(b) => ArchiveData::RecordBatch(copy_records(b)),
            ArchiveData::ProofBatch(b) => ArchiveData::ProofBatch(
                crate::types::copy_stored_proofs(b),
            ),
        }
    }

    /// Whether this item falls under the namespace filter.
    pub fn matches(&self, filter: &ArchiveFilter) -> (r: bool)
        ensures
            r == archive_matches(self@, filter_namespace(*filter)),
    {
        match filter.namespace {
            None => true,
            Some(ns) => match self {
                ArchiveData::Commitment(m) => crate::bytes::eq32(&m.commitment.namespace, &ns),
                ArchiveData::Record(r) => crate::bytes::eq32(&r.namespace, &ns),
                ArchiveData::Proof(_) => true,
                ArchiveData::CommitmentBatch(b) => {
                    let ghost bv = b@.map_values(|m: BatchCommitmentMeta| m@);
                    let mut i: usize = 0;
                    while i < b.len()
                        invariant
                            i <= b@.len(),
                            bv == b@.map_values(|m: BatchCommitmentMeta| m@),
                            self@ == ArchiveDataView::CommitmentBatch(bv),
                            filter.namespace == Some(ns),
                            forall|j: int| 0 <= j < i ==> b@[j].commitment.namespace@ != ns@,
                        decreases b@.len() - i,
                    {
                        if crate::bytes::eq32(&b[i].commitment.namespace, &ns) {
                            assert(bv[i as int] == b@[i as int]@);
                            assert(bv[i as int].0.0 == ns@);
                            assert(metas_have_namespace(bv, ns@));
                            return true;
                        }
                        i += 1;
                    }
                    assert forall|j: int| 0 <= j < bv.len() implies (#[trigger] bv[j]).0.0 != ns@ by {
                        assert(bv[j] == b@[j]@);
                    }
                    false
                },
                ArchiveData::RecordBatch(b) => {
                    let mut i: usize = 0;
                    while i < b.len()
                        invariant
                            i <= b@.len(),
                            self@ == ArchiveDataView::RecordBatch(b@),
                            filter.namespace == Some(ns),
                            forall|j: int| 0 <= j < i ==> b@[j].namespace@ != ns@,
                        decreases b@.len() - i,
                    {
                        if crate::bytes::eq32(&b[i].namespace, &ns) {
                            assert(b@[i as int].namespace@ == ns@);
                            assert(records_have_namespace(b@, ns@));
                            return true;
                        }
                        i += 1;
                    }
                    false
                },
                ArchiveData::ProofBatch(_) => true,
            },
        }
    }
}

} // verus!
