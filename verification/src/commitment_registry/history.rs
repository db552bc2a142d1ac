//! Looking up the latest commitment of a namespace in a list of commitments.

use vstd::prelude::*;

use crate::bytes::eq32;
use crate::types::Commitment;
use crate::types::CommitmentFilterOptions;
use crate::types::CommitmentView;

verus! {

/// Whether `c` is of namespace `ns` and made no later than `time`.
pub open spec fn commitment_matches(c: CommitmentView, ns: Seq<u8>, time: u64) -> bool {
    c.0 == ns && c.2 <= time
}

/// The latest commitment of `s` of namespace `ns` made no later than `time`;
/// among several made at the same latest time, the last one listed.
pub open spec fn latest_commitment(s: Seq<CommitmentView>, ns: Seq<u8>, time: u64) -> Option<
    CommitmentView,
>
    decreases s.len(),
{
    if s.len() == 0 {
        None
    } else {
        let rest = latest_commitment(s.drop_last(), ns, time);
        let c = s.last();
        if commitment_matches(c, ns, time) {
            match rest {
                None => Some(c),
                Some(r) => if c.2 >= r.2 {
                    Some(c)
                } else {
                    Some(r)
                },
            }
        } else {
            rest
        }
    }
}

/// What `latest_commitment` finds is a listed commitment that matches, made
/// no earlier than any other listed match.
pub proof fn lemma_latest_commitment(s: Seq<CommitmentView>, ns: Seq<u8>, time: u64)
    ensures
        latest_commitment(s, ns, time) matches Some(c) ==> commitment_matches(c, ns, time)
            && s.contains(c),
        latest_commitment(s, ns, time) matches Some(c) ==> forall|i: int|
            0 <= i < s.len() && commitment_matches(#[trigger] s[i], ns, time) ==> s[i].2 <= c.2,
        latest_commitment(s, ns, time) is None ==> forall|i: int|
            0 <= i < s.len() ==> !commitment_matches(#[trigger] s[i], ns, time),
    decreases s.len(),
{
    if s.len() > 0 {
        let t = s.drop_last();
        let c = s.last();
        lemma_latest_commitment(t, ns, time);
        assert forall|i: int| 0 <= i < t.len() implies #[trigger] t[i] == s[i] by {}
        assert(s[s.len() - 1] == c);
        match latest_commitment(t, ns, time) {
            Some(r) => {
                let k = choose|k: int| 0 <= k < t.len() && t[k] == r;
                assert(s[k] == r);
            },
            None => {},
        }
        let res = latest_commitment(s, ns, time);
        assert forall|i: int|
            0 <= i < s.len() && commitment_matches(#[trigger] s[i], ns, time) implies (
            res matches Some(x) && s[i].2 <= x.2) by {
            if i < s.len() - 1 {
                assert(t[i] == s[i]);
            }
        }
        if res is None {
            assert forall|i: int| 0 <= i < s.len() implies !commitment_matches(
                #[trigger] s[i],
                ns,
                time,
            ) by {
                if i < s.len() - 1 {
                    assert(t[i] == s[i]);
                }
            }
        }
    }
}

/// The index in `list` of the commitment that `latest_commitment` gives.
pub fn latest_index(list: &Vec<Commitment>, filter: &CommitmentFilterOptions) -> (r: Option<usize>)
    ensures
        match (r, latest_commitment(list@.map_values(|c: Commitment| c@), filter.namespace@, filter.time)) {
            (Some(i), Some(c)) => i < list@.len() && list@[i as int]@ == c,
            (None, None) => true,
            _ => false,
        },
{
    let ghost s = list@.map_values(|c: Commitment| c@);
    let mut best: Option<usize> = None;
    let mut i: usize = 0;
    while i < list.len()
        invariant
            i <= list@.len(),
            s == list@.map_values(|c: Commitment| c@),
            match (best, latest_commitment(s.subrange(0, i as int), filter.namespace@, filter.time)) {
                (Some(b), Some(c)) => b < i && list@[b as int]@ == c,
                (None, None) => true,
                _ => false,
            },
        decreases list@.len() - i,
    {
        let c = &list[i];
        assert(s.subrange(0, i + 1).drop_last() =~= s.subrange(0, i as int));
        assert(s.subrange(0, i + 1).last() == c@);
        if eq32(&c.namespace, &filter.namespace) && c.committed_at <= filter.time {
            match best {
                None => {
                    best = Some(i);
                },
                Some(b) => {
                    if c.committed_at >= list[b].committed_at {
                        best = Some(i);
                    }
                },
            }
        }
        i += 1;
    }
    assert(s.subrange(0, i as int) =~= s);
    best
}

} // verus!
