//! Rendering proofs for publication.

use vstd::prelude::*;

use crate::proof_registry::types::ProofNodeJson;
use crate::text::hex_encode;
use crate::text::spec_hex;
use crate::text::string_push;
use crate::text::string_push_str;
use crate::types::Proof;
use crate::types::ProofNode;

verus! {

/// `bytes` as `0x` followed by lowercase hex.
pub open spec fn spec_0x_hex(bytes: Seq<u8>) -> Seq<char> {
    seq!['0', 'x'] + spec_hex(bytes)
}

/// The published form of a proof step.
pub open spec fn spec_node_json(is_left: bool, sibling: Seq<u8>) -> (Seq<char>, Seq<char>) {
    (if is_left { "left"@ } else { "right"@ }, spec_0x_hex(sibling))
}

/// `bytes` rendered as lowercase hex after a `0x` prefix.
pub fn to_0x_hex(bytes: &[u8]) -> (r: String)
    ensures
        r@ == spec_0x_hex(bytes@),
{
    let mut s = String::new();
    string_push(&mut s, '0');
    string_push(&mut s, 'x');
    let h = hex_encode(bytes);
    string_push_str(&mut s, h.as_str());
    assert(s@ =~= spec_0x_hex(bytes@));
    s
}

/// Each step of `proof`, in order, as its direction and `0x` hex sibling.
pub fn proof_to_json(proof: Proof) -> (r: Vec<ProofNodeJson>)
    ensures
        r@.len() == proof@.len(),
        forall|i: int|
            0 <= i < r@.len() ==> (#[trigger] r@[i].direction@, r@[i].sibling@) == spec_node_json(
                proof@[i].0,
                proof@[i].1,
            ),
{
    let mut out: Vec<ProofNodeJson> = Vec::new();
    let mut i: usize = 0;
    while i < proof.nodes.len()
        invariant
            i <= proof.nodes@.len(),
            out@.len() == i,
            forall|j: int|
                0 <= j < i ==> (#[trigger] out@[j].direction@, out@[j].sibling@) == spec_node_json(
                    proof@[j].0,
                    proof@[j].1,
                ),
        decreases proof.nodes@.len() - i,
    {
        let node: &ProofNode = &proof.nodes[i];
        proof {
            reveal_strlit("left");
            reveal_strlit("right");
        }
        let direction = if node.is_left {
            "left".to_owned()
        } else {
            "right".to_owned()
        };
        let sibling = to_0x_hex(node.sibling.as_slice());
        out.push(ProofNodeJson { direction, sibling });
        i += 1;
    }
    out
}

} // verus!
