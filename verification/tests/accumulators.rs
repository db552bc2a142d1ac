use rootsmith::accumulator::merkle_accumulator::MerkleAccumulator as BatchMerkleAccumulator;
use rootsmith::accumulator::sdk_accumulator::to_sdk_trait;
use rootsmith::accumulator::sdk_accumulator::SdkAccumulator;
use rootsmith::accumulator::sdk_accumulator::StandardWrapper;
use rootsmith::accumulator::sparse_merkle_accumulator::SparseMerkleAccumulator as BatchSparseAccumulator;
use rootsmith::accumulator::zk_adapter::ZkAccumulatorAdapter;
use rootsmith::crypto::merkle::MerkleError;
use rootsmith::crypto::merkle::MerkleTree;
use rootsmith::crypto::merkle_accumulator::MerkleAccumulator;
use rootsmith::crypto::mock_accumulator::MockAccumulator;
use rootsmith::crypto::simple_accumulator::SimpleAccumulator;
use rootsmith::crypto::sparse_merkle::SparseMerkleTree;
use rootsmith::crypto::sparse_merkle_accumulator::SparseMerkleAccumulator;
use rootsmith::crypto::variant::AccumulatorType;
use rootsmith::crypto::variant::AccumulatorVariant;
use rootsmith::types::AccumulatorError;
use rootsmith::types::IncomingRecord;
use rootsmith::types::RawRecord;
use rootsmith::types::Record;

use monotree::database::MemoryDB;
use monotree::hasher::Blake3;
use monotree::Monotree;
use rs_merkle::algorithms::Sha256;
use rs_merkle::Hasher;
use rs_merkle::MerkleTree as RsMerkleTree;

fn word(id: u8) -> [u8; 32] {
    let mut k = [0u8; 32];
    k[0] = id;
    k
}

fn sha(data: &[u8]) -> [u8; 32] {
    Sha256::hash(data)
}

fn concat(a: &[u8], b: &[u8]) -> Vec<u8> {
    let mut v = a.to_vec();
    v.extend_from_slice(b);
    v
}

fn rs_root(leaves: &[[u8; 32]]) -> Vec<u8> {
    RsMerkleTree::<Sha256>::from_leaves(leaves).root().unwrap().to_vec()
}

fn blake(data: &[u8]) -> [u8; 32] {
    *blake3::hash(data).as_bytes()
}

/// The root monotree reaches after the given inserts into a fresh tree.
fn monotree_root(entries: &[([u8; 32], [u8; 32])]) -> Option<[u8; 32]> {
    let mut tree: Monotree<MemoryDB, Blake3> = Monotree::default();
    let mut root = None;
    for (k, l) in entries {
        root = tree.insert(root.as_ref(), k, l).unwrap();
    }
    root
}

#[test]
fn merkle_tree_root_and_proof() {
    let mut t = MerkleTree::new();
    assert_eq!(t.root().unwrap(), vec![0u8; 32]);
    t.add_leaf(vec![1, 2]);
    t.add_leaf(vec![4]);
    t.add_leaf(vec![8, 16, 32]);
    assert_eq!(t.len(), 3);
    // Pairs are XOR-folded into 32 bytes; an odd leaf is carried up.
    let pair = t.hash_pair(&[1, 2], &[4]);
    let mut expected_pair = vec![0u8; 32];
    expected_pair[0] = 1;
    expected_pair[1] = 2;
    expected_pair[2] = 4;
    assert_eq!(pair, expected_pair);
    let root = t.root().unwrap();
    // The carried leaf's bytes come after the 32 bytes of the pair, so they
    // fold onto positions 0, 1 and 2 again.
    let mut expected_root = expected_pair.clone();
    expected_root[0] ^= 8;
    expected_root[1] ^= 16;
    expected_root[2] ^= 32;
    assert_eq!(root, expected_root);
    assert_eq!(t.generate_proof(0).unwrap(), vec![vec![4], vec![8, 16, 32]]);
    assert_eq!(t.generate_proof(2).unwrap(), vec![expected_pair]);
    assert_eq!(t.generate_proof(3).unwrap_err(), MerkleError::IndexOutOfBounds);
}

#[test]
fn sparse_merkle_tree_maps_keys() {
    let mut t = SparseMerkleTree::new(256);
    assert_eq!(t.depth(), 256);
    t.update(vec![1], vec![2]).unwrap();
    t.update(vec![1], vec![3]).unwrap();
    t.update(vec![5, 6], vec![7]).unwrap();
    assert_eq!(t.get(&[1]), Some(&vec![3]));
    assert_eq!(t.get(&[9]), None);
    let mut expected = vec![0u8; 32];
    expected[0] = 1 ^ 5;
    expected[1] = 3 ^ 6;
    expected[2] = 7;
    assert_eq!(t.root().unwrap(), expected);
    assert_eq!(t.generate_proof(&[5, 6]).unwrap(), vec![vec![7]]);
    assert!(t.generate_proof(&[4]).unwrap().is_empty());
}

#[test]
fn mock_accumulator_xor_root_and_lookup() {
    let mut a = MockAccumulator::new();
    assert_eq!(a.id(), "mock-accumulator");
    a.put(word(1), word(2)).unwrap();
    a.put(word(4), word(8)).unwrap();
    a.put(word(1), word(16)).unwrap();
    let mut expected = vec![0u8; 32];
    expected[0] = 1 ^ 16 ^ 4 ^ 8;
    assert_eq!(a.build_root().unwrap(), expected);
    assert!(a.verify_inclusion(&word(1), &word(16)).unwrap());
    assert!(!a.verify_inclusion(&word(1), &word(2)).unwrap());
    assert!(a.verify_non_inclusion(&word(9)).unwrap());
    assert!(!a.verify_non_inclusion(&word(4)).unwrap());
    a.flush().unwrap();
    assert_eq!(a.build_root().unwrap(), vec![0u8; 32]);
}

#[test]
fn simple_accumulator_running_xor() {
    let mut a = SimpleAccumulator::new();
    assert_eq!(a.id(), "simple-accumulator");
    a.put(word(3), word(5)).unwrap();
    a.put(word(3), word(5)).unwrap();
    assert_eq!(a.build_root().unwrap(), vec![0u8; 32]);
    a.put(word(1), word(2)).unwrap();
    let mut expected = vec![0u8; 32];
    expected[0] = 3;
    assert_eq!(a.build_root().unwrap(), expected);
    assert!(a.verify_inclusion(&word(9), &[1]).unwrap());
    assert!(a.verify_non_inclusion(&word(9)).unwrap());
}

#[test]
fn merkle_accumulator_matches_rs_merkle() {
    let mut a = MerkleAccumulator::new();
    assert_eq!(a.build_root().unwrap(), vec![0u8; 32]);
    a.put(word(1), word(10)).unwrap();
    a.put(word(2), word(20)).unwrap();
    a.put(word(3), word(30)).unwrap();
    let leaves = [sha(&word(10)), sha(&word(20)), sha(&word(30))];
    let root = rs_root(&leaves);
    assert_eq!(a.build_root().unwrap(), root);
    let mut root32 = [0u8; 32];
    root32.copy_from_slice(&root);
    let p = a.prove(&word(2)).unwrap().unwrap();
    assert!(a.verify_proof(&root32, &word(20), Some(&p)).unwrap());
    assert!(!a.verify_proof(&root32, &word(21), Some(&p)).unwrap());
    assert!(!a.verify_proof(&root32, &word(20), None).unwrap());
    assert!(a.prove(&word(9)).unwrap().is_none());
    assert!(a.verify_inclusion(&word(3), &word(30)).unwrap());
    assert!(!a.verify_inclusion(&word(3), &[30]).unwrap());
    assert!(!a.verify_non_inclusion(&word(9)).unwrap());
}

#[test]
fn sparse_merkle_accumulator_matches_monotree() {
    let mut a = SparseMerkleAccumulator::new();
    assert_eq!(a.id(), "sparse-merkle");
    assert_eq!(a.build_root().unwrap(), vec![0u8; 32]);
    assert!(a.prove(&word(1)).unwrap().is_none());
    a.put(word(1), word(10)).unwrap();
    a.put(word(2), word(20)).unwrap();
    a.put(word(1), word(11)).unwrap();
    let leaf = |k: &[u8; 32], v: &[u8; 32]| blake(&concat(k, v));
    let expected = monotree_root(&[
        (word(1), leaf(&word(1), &word(10))),
        (word(2), leaf(&word(2), &word(20))),
        (word(1), leaf(&word(1), &word(11))),
    ])
    .unwrap();
    assert_eq!(a.build_root().unwrap(), expected.to_vec());
    assert!(a.verify_inclusion(&word(1), &word(11)).unwrap());
    assert!(!a.verify_inclusion(&word(1), &word(10)).unwrap());
    assert!(!a.verify_inclusion(&word(1), &[11]).unwrap());
    assert!(a.verify_non_inclusion(&word(3)).unwrap());
    assert!(!a.verify_non_inclusion(&word(2)).unwrap());
    let p = a.prove(&word(2)).unwrap().unwrap();
    assert!(!p.nodes.is_empty());
    assert!(a.prove(&word(3)).unwrap().is_none());
    // An absent proof never verifies.
    assert!(!a.verify_proof(&expected, &word(2), &word(20), None).unwrap());
    a.flush().unwrap();
    assert_eq!(a.build_root().unwrap(), vec![0u8; 32]);
}

#[test]
fn sparse_merkle_proof_that_follows_key_bits_verifies() {
    // A single key whose first bit is 0: its proof is one step on the left
    // side, which follows the key's bits.
    let key = word(5);
    let value = word(6);
    let mut a = SparseMerkleAccumulator::new();
    a.put(key, value).unwrap();
    let p = a.prove(&key).unwrap().unwrap();
    assert_eq!(p.nodes.len(), 1);
    assert!(!p.nodes[0].is_left);
    assert!(!SparseMerkleAccumulator::key_bit_msb(&key, 0));
    let root = a.build_root().unwrap();
    let mut root32 = [0u8; 32];
    root32.copy_from_slice(&root);
    assert!(a.verify_proof(&root32, &key, &value, Some(&p)).unwrap());
    assert!(!a.verify_proof(&root32, &key, &word(7), Some(&p)).unwrap());
    // A key whose first bit is 1 gets a step on the wrong side for it.
    let mut other = [0u8; 32];
    other[0] = 0x80;
    let mut b = SparseMerkleAccumulator::new();
    b.put(other, value).unwrap();
    let q = b.prove(&other).unwrap().unwrap();
    let broot = b.build_root().unwrap();
    let mut broot32 = [0u8; 32];
    broot32.copy_from_slice(&broot);
    assert!(!b.verify_proof(&broot32, &other, &value, Some(&q)).unwrap());
}

#[test]
fn key_bits_are_most_significant_first() {
    let mut key = [0u8; 32];
    key[0] = 0b1010_0000;
    key[1] = 0b0000_0001;
    assert!(SparseMerkleAccumulator::key_bit_msb(&key, 0));
    assert!(!SparseMerkleAccumulator::key_bit_msb(&key, 1));
    assert!(SparseMerkleAccumulator::key_bit_msb(&key, 2));
    assert!(SparseMerkleAccumulator::key_bit_msb(&key, 15));
    assert!(!SparseMerkleAccumulator::key_bit_msb(&key, 255));
}

#[test]
fn accumulator_variant_dispatches() {
    for (t, name) in [
        (AccumulatorType::Merkle, "merkle"),
        (AccumulatorType::SparseMerkle, "sparse-merkle"),
        (AccumulatorType::Mock, "mock-accumulator"),
        (AccumulatorType::Simple, "simple-accumulator"),
    ] {
        let mut v = AccumulatorVariant::new(t);
        assert_eq!(v.accumulator_type(), t);
        assert_eq!(v.id(), name);
        v.put(word(1), word(2)).unwrap();
        assert_eq!(v.build_root().unwrap().len(), 32);
        let p = v.prove(&word(1)).unwrap();
        match t {
            AccumulatorType::Merkle | AccumulatorType::SparseMerkle => assert!(p.is_some()),
            _ => assert!(p.is_none()),
        }
        v.flush().unwrap();
    }
    let mut m = AccumulatorVariant::new(AccumulatorType::Merkle);
    m.put(word(1), word(2)).unwrap();
    let root = m.build_root().unwrap();
    assert_eq!(root, rs_root(&[sha(&word(2))]));
    let mut root32 = [0u8; 32];
    root32.copy_from_slice(&root);
    let p = m.prove(&word(1)).unwrap().unwrap();
    assert!(m.verify_proof(&root32, &word(1), &word(2), Some(&p)).unwrap());
    let mock = AccumulatorVariant::new(AccumulatorType::Mock);
    assert!(!mock.verify_proof(&root32, &word(1), &word(2), Some(&p)).unwrap());
}

#[test]
fn sdk_accumulator_commit_trait() {
    let mut a = SdkAccumulator::new();
    assert_eq!(a.build_root().unwrap_err(), AccumulatorError::NoLeaves);
    let records = vec![
        StandardWrapper { namespace: word(9), key: word(1), value: word(10), timestamp: 500 },
        StandardWrapper { namespace: word(9), key: word(2), value: word(20), timestamp: 600 },
    ];
    let r = a.commit_trait(&records).unwrap();
    let leaves = [sha(&concat(&word(1), &word(10))), sha(&concat(&word(2), &word(20)))];
    assert_eq!(r.commitment, rs_root(&leaves));
    assert_eq!(r.committed_at, 500);
    assert_eq!(r.timestamp, 500);
    assert_eq!(r.item_count, 2);
    assert_eq!(r.namespaces, vec![word(9), word(9)]);
    let proofs = r.proofs.unwrap();
    assert_eq!(proofs.len(), 2);
    assert_eq!(proofs[0].0, word(1));
    assert!(a.commit_trait::<StandardWrapper>(&[]).is_err());
}

#[test]
fn sdk_accumulator_build_and_to_sdk_trait() {
    let rec = IncomingRecord { namespace: word(3), key: word(4), value: word(5), timestamp: 6 };
    let w = to_sdk_trait(&rec);
    assert_eq!(w.namespace, word(3));
    assert_eq!(w.key, word(4));
    assert_eq!(w.value, word(5));
    assert_eq!(w.timestamp, 6);
    let mut a = SdkAccumulator::new();
    a.build(&w).unwrap();
    assert_eq!(a.build_root().unwrap(), rs_root(&[sha(&concat(&word(4), &word(5)))]));
    assert_eq!(SdkAccumulator::leaf_hash(&word(4), &word(5)), sha(&concat(&word(4), &word(5))));
    assert!(a.prove(&word(4)).unwrap().is_some());
    a.flush().unwrap();
    assert_eq!(a.build_root().unwrap_err(), AccumulatorError::NoLeaves);
}

#[test]
fn sdk_accumulator_commit_raw_records() {
    let mut a = SdkAccumulator::new();
    let records = vec![RawRecord { key: word(1), value: vec![1, 2, 3] }];
    let r = a.commit(&records, 99).unwrap();
    assert_eq!(r.commitment, rs_root(&[sha(&concat(&word(1), &[1, 2, 3]))]));
    assert_eq!(r.committed_at, 99);
    assert_eq!(r.item_count, 1);
    assert!(a.commit(&[], 1).is_err());
}

#[test]
fn sdk_accumulator_commit_gives_one_proof_per_distinct_key() {
    let mut a = SdkAccumulator::new();
    let records = vec![
        RawRecord { key: word(1), value: vec![1] },
        RawRecord { key: word(2), value: vec![2] },
        RawRecord { key: word(1), value: vec![3] },
    ];
    let r = a.commit(&records, 5).unwrap();
    assert_eq!(r.item_count, 3);
    let proofs = r.proofs.unwrap();
    assert_eq!(proofs.len(), 2);
    assert_eq!(proofs[0].0, word(1));
    assert_eq!(proofs[1].0, word(2));
    let mut b = BatchMerkleAccumulator::new();
    let rb = b.commit(&records, 5).unwrap();
    let keys: Vec<[u8; 32]> = rb.proofs.unwrap().iter().map(|(k, _)| *k).collect();
    assert_eq!(keys, vec![word(1), word(2)]);
}

#[test]
fn zk_adapter_pads_values_and_uses_commit_time() {
    let mut z = ZkAccumulatorAdapter::new(SdkAccumulator::new()).with_namespace(word(7));
    assert_eq!(z.id(), "zk");
    assert_eq!(z.default_namespace, word(7));
    assert_eq!(z.commit(&[], 5).unwrap_err(), AccumulatorError::EmptyRecords);
    let long: Vec<u8> = (0..40).collect();
    let records = vec![
        RawRecord { key: word(1), value: vec![1, 2] },
        RawRecord { key: word(2), value: long.clone() },
    ];
    let r = z.commit(&records, 1234).unwrap();
    let mut short = [0u8; 32];
    short[0] = 1;
    short[1] = 2;
    let mut cut = [0u8; 32];
    cut.copy_from_slice(&long[..32]);
    let leaves = [sha(&concat(&word(1), &short)), sha(&concat(&word(2), &cut))];
    assert_eq!(r.commitment, rs_root(&leaves));
    assert_eq!(r.committed_at, 1234);
    assert_eq!(r.namespaces, vec![word(7), word(7)]);
    assert_eq!(r.item_count, 2);
    assert_eq!(r.proofs.unwrap().len(), 2);
}

#[test]
fn batch_merkle_accumulator_commit_and_proofs() {
    let mut a = BatchMerkleAccumulator::new();
    assert_eq!(a.id(), "merkle");
    let empty = a.commit(&[], 7).unwrap();
    assert_eq!(empty.commitment, vec![0u8; 32]);
    assert!(empty.proofs.unwrap().is_empty());
    let records = vec![
        RawRecord { key: word(1), value: vec![1] },
        RawRecord { key: word(2), value: vec![2, 2] },
        RawRecord { key: word(3), value: vec![3, 3, 3] },
        RawRecord { key: word(4), value: vec![] },
    ];
    let r = a.commit(&records, 8).unwrap();
    let leaves = [
        sha(&concat(&word(1), &[1])),
        sha(&concat(&word(2), &[2, 2])),
        sha(&concat(&word(3), &[3, 3, 3])),
        sha(&word(4)),
    ];
    let root = rs_root(&leaves);
    assert_eq!(r.commitment, root);
    assert_eq!(r.committed_at, 8);
    let proofs = r.proofs.unwrap();
    assert_eq!(proofs.len(), 4);
    let mut root32 = [0u8; 32];
    root32.copy_from_slice(&root);
    for (i, (k, p)) in proofs.iter().enumerate() {
        assert!(a.verify_proof(&root32, k, &records[i].value, Some(p)).unwrap());
    }
    // With a leaf count that is not a power of two, the last leaf's proof
    // puts its sibling on the wrong side and does not lead to the root.
    let odd = a.commit(&records[..3], 9).unwrap();
    let odd_root = rs_root(&leaves[..3]);
    assert_eq!(odd.commitment, odd_root);
    let mut odd32 = [0u8; 32];
    odd32.copy_from_slice(&odd_root);
    let odd_proofs = odd.proofs.unwrap();
    assert!(a.verify_proof(&odd32, &word(1), &[1], Some(&odd_proofs[0].1)).unwrap());
    assert!(!a.verify_proof(&odd32, &word(3), &[3, 3, 3], Some(&odd_proofs[2].1)).unwrap());
    let many = a.prove_many(&[word(2), word(9)]).unwrap();
    assert!(many[0].1.is_some());
    assert!(many[1].1.is_none());
    let mut v32 = [0u8; 32];
    v32[0] = 9;
    a.put(word(4), v32).unwrap();
    assert!(a.verify_inclusion(&word(4), &v32).unwrap());
    assert!(!a.verify_inclusion(&word(1), &[1]).unwrap());
    assert!(!a.verify_non_inclusion(&word(9)).unwrap());
}

#[test]
fn batch_sparse_accumulator_commit_root() {
    let a = BatchSparseAccumulator::new();
    assert_eq!(a.accumulator_type(), AccumulatorType::SparseMerkle);
    let empty = a.commit(&[], 3).unwrap();
    assert_eq!(empty.commitment, vec![0u8; 32]);
    assert_eq!(empty.item_count, 0);
    assert!(empty.namespaces.is_empty());
    let records = vec![
        Record { namespace: word(8), key: word(1), value: vec![5, 6] },
        Record { namespace: word(9), key: word(2), value: vec![7] },
    ];
    let r = a.commit(&records, 4).unwrap();
    assert_eq!(r.item_count, 2);
    assert_eq!(r.namespaces, vec![word(8), word(9)]);
    assert_eq!(r.timestamp, 4);
    let expected = monotree_root(&[
        (word(1), blake(&concat(&word(1), &[5, 6]))),
        (word(2), blake(&concat(&word(2), &[7]))),
    ])
    .unwrap();
    assert_eq!(r.commitment, expected.to_vec());
    assert_eq!(r.committed_at, 4);
    assert!(r.proofs.unwrap().is_empty());
}

#[test]
fn merkle_proof_climbs_to_root_for_short_leaves() {
    let leaves: Vec<Vec<u8>> = vec![vec![1, 2, 3], vec![4], vec![5, 6], vec![7, 8, 9, 10], vec![11]];
    let mut t = MerkleTree::new();
    for l in &leaves {
        t.add_leaf(l.clone());
    }
    let root = t.root().unwrap();
    for i0 in 0..leaves.len() {
        let p = t.generate_proof(i0).unwrap();
        let (mut cur, mut i, mut m, mut j) = (leaves[i0].clone(), i0, leaves.len(), 0usize);
        while m > 1 {
            if (i ^ 1) < m {
                cur = if i % 2 == 0 { t.hash_pair(&cur, &p[j]) } else { t.hash_pair(&p[j], &cur) };
                j += 1;
            }
            i /= 2;
            m = (m + 1) / 2;
        }
        assert_eq!(j, p.len());
        assert_eq!(cur, root);
    }
}

#[test]
fn sparse_merkle_tree_get_after_updates_gives_last_write() {
    let mut t = SparseMerkleTree::new(256);
    let updates: Vec<(Vec<u8>, Vec<u8>)> = vec![
        (vec![1], vec![10]),
        (vec![2], vec![20]),
        (vec![1], vec![11]),
        (vec![3], vec![30]),
        (vec![2], vec![21]),
        (vec![1], vec![12]),
    ];
    for (k, v) in &updates {
        t.update(k.clone(), v.clone()).unwrap();
    }
    assert_eq!(t.get(&[1]), Some(&vec![12]));
    assert_eq!(t.get(&[2]), Some(&vec![21]));
    assert_eq!(t.get(&[3]), Some(&vec![30]));
    assert_eq!(t.get(&[4]), None);
}
