//! The registry implementations behind one type.

use vstd::prelude::*;

use crate::commitment_registry::commitment_contract::CommitmentContract;
use crate::commitment_registry::commitment_noop::CommitmentNoop;
use crate::commitment_registry::history::latest_commitment;
use crate::commitment_registry::mock::commitments_of;
use crate::commitment_registry::mock::MockCommitmentRegistry;
use crate::types::BatchCommitmentMeta;
use crate::types::Commitment;
use crate::types::CommitmentFilterOptions;
use crate::types::CommitmentView;
use crate::types::MetaView;

verus! {

/// Which registry to make.
#[derive(Clone, Copy, Debug, PartialEq, Eq)]
pub enum CommitmentRegistryType {
    Contract,
    Noop,
    Mock,
}

/// What a registry holds, as plain values.
pub enum RegistryView {
    /// A contract registry: the contract's address and the commitments it searches.
    Contract(Seq<char>, Seq<CommitmentView>),
    /// A registry that keeps nothing.
    Noop,
    /// A mock registry and the batch commitments it appended.
    Mock(Seq<MetaView>),
}

/// What a registry holds after `m` is committed to it.
pub open spec fn registry_after_commit(st: RegistryView, m: MetaView) -> RegistryView {
    match st {
        RegistryView::Mock(ms) => RegistryView::Mock(ms.push(m)),
        other => other,
    }
}

/// What a lookup in the registry gives.
pub open spec fn registry_prev(st: RegistryView, ns: Seq<u8>, time: u64) -> Option<CommitmentView> {
    match st {
        RegistryView::Contract(_, cs) => latest_commitment(cs, ns, time),
        RegistryView::Noop => None,
        RegistryView::Mock(ms) => latest_commitment(commitments_of(ms), ns, time),
    }
}

/// After a batch commitment is made to a mock registry, a lookup of its
/// namespace at any time no earlier than its commit time finds a commitment
/// made no earlier than it; when no listed commitment of the namespace is
/// later, it finds exactly that one.
pub proof fn law_commit_then_prev(ms: Seq<MetaView>, m: MetaView, t: u64)
    requires
        m.0.2 <= t,
    ensures
        registry_prev(registry_after_commit(RegistryView::Mock(ms), m), m.0.0, t) matches Some(c)
            && c.0 == m.0.0 && m.0.2 <= c.2 <= t,
        (forall|i: int|
            0 <= i < ms.len() && (#[trigger] ms[i]).0.0 == m.0.0 ==> ms[i].0.2 <= m.0.2)
            ==> registry_prev(registry_after_commit(RegistryView::Mock(ms), m), m.0.0, t) == Some(
            m.0,
        ),
{
    let s = commitments_of(ms);
    let s2 = commitments_of(ms.push(m));
    assert(s2 =~= s.push(m.0));
    assert(s2.drop_last() =~= s);
    crate::commitment_registry::history::lemma_latest_commitment(s, m.0.0, t);
    if forall|i: int| 0 <= i < ms.len() && (#[trigger] ms[i]).0.0 == m.0.0 ==> ms[i].0.2 <= m.0.2 {
        match latest_commitment(s, m.0.0, t) {
            Some(r) => {
                let k = choose|k: int| 0 <= k < s.len() && s[k] == r;
                assert(ms[k].0 == r);
            },
            None => {},
        }
    }
}

/// One of the commitment registries.
pub enum CommitmentRegistryVariant {
    Contract(CommitmentContract),
    Noop(CommitmentNoop),
    Mock(MockCommitmentRegistry),
}

impl View for CommitmentRegistryVariant {
    type V = RegistryView;

    open spec fn view(&self) -> RegistryView {
        match self {
            CommitmentRegistryVariant::Contract(c) => RegistryView::Contract(
                c.address_view(),
                c.registered_view(),
            ),
            CommitmentRegistryVariant::Noop(_) => RegistryView::Noop,
            CommitmentRegistryVariant::Mock(m) => RegistryView::Mock(m@),
        }
    }
}

impl CommitmentRegistryVariant {
    /// A registry of the given type; the contract registry gets the zero address.
    pub fn new(registry_type: CommitmentRegistryType) -> (r: Self)
        ensures
            registry_type == CommitmentRegistryType::Contract ==> r@ == RegistryView::Contract(
                "0x0000000000000000000000000000000000000000"@,
                Seq::empty(),
            ),
            registry_type == CommitmentRegistryType::Noop ==> r@ == RegistryView::Noop,
            registry_type == CommitmentRegistryType::Mock ==> r@ == RegistryView::Mock(
                Seq::empty(),
            ),
    {
        match registry_type {
            CommitmentRegistryType::Contract => CommitmentRegistryVariant::Contract(
                CommitmentContract::new("0x0000000000000000000000000000000000000000".to_string()),
            ),
            CommitmentRegistryType::Noop => CommitmentRegistryVariant::Noop(CommitmentNoop::new()),
            CommitmentRegistryType::Mock => CommitmentRegistryVariant::Mock(
                MockCommitmentRegistry::new(),
            ),
        }
    }

    /// The name of the registry inside.
    pub fn name(&self) -> (r: &'static str)
        ensures
            self is Contract ==> r@ == "contract"@,
            self is Noop ==> r@ == "noop"@,
            self is Mock ==> r@ == "mock-commitment-registry"@,
    {
        match self {
            CommitmentRegistryVariant::Contract(inner) => inner.name(),
            CommitmentRegistryVariant::Noop(inner) => inner.name(),
            CommitmentRegistryVariant::Mock(inner) => inner.name(),
        }
    }

    /// Commits `meta` to the registry inside.
    pub fn commit(&mut self, meta: &BatchCommitmentMeta) -> (res: Result<(), ()>)
        ensures
            res is Ok,
            final(self)@ == registry_after_commit(old(self)@, meta@),
    {
        match self {
            CommitmentRegistryVariant::Contract(inner) => inner.commit(meta),
            CommitmentRegistryVariant::Noop(inner) => inner.commit(meta),
            CommitmentRegistryVariant::Mock(inner) => inner.commit(meta),
        }
    }

    /// The latest commitment of the filter's namespace made no later than its time.
    pub fn get_prev_commitment(&self, filter: &CommitmentFilterOptions) -> (res: Result<
        Option<Commitment>,
        (),
    >)
        ensures
            res matches Ok(r) && (match (r, registry_prev(self@, filter.namespace@, filter.time)) {
                (Some(c), Some(sc)) => c@ == sc,
                (None, None) => true,
                _ => false,
            }),
    {
        match self {
            CommitmentRegistryVariant::Contract(inner) => inner.get_prev_commitment(filter),
            CommitmentRegistryVariant::Noop(inner) => inner.get_prev_commitment(filter),
            CommitmentRegistryVariant::Mock(inner) => inner.get_prev_commitment(filter),
        }
    }
}

} // verus!
