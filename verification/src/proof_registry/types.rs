//! The JSON shapes in which proofs are published.

use vstd::prelude::*;

verus! {

/// One proof step as published: `"left"` or `"right"`, and the sibling as `0x` hex.
#[derive(Debug)]
pub struct ProofNodeJson {
    pub direction: String,
    pub sibling: String,
}

/// An inclusion proof as published, every byte string as `0x` hex.
#[derive(Debug)]
pub struct InclusionProofJson {
    pub root: String,
    pub key: String,
    pub value_hash: String,
    pub proof: Vec<ProofNodeJson>,
}

} // verus!
