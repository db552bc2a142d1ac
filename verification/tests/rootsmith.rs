use rootsmith::archive::mock::MockArchive;
use rootsmith::archive::ArchiveStorageVariant;
use rootsmith::commitment_registry::mock::MockCommitmentRegistry;
use rootsmith::commitment_registry::CommitmentRegistryVariant;
use rootsmith::config::BaseConfig;
use rootsmith::crypto::variant::AccumulatorType;
use rootsmith::proof_delivery::mock::MockDelivery;
use rootsmith::proof_delivery::variant::ProofDeliveryVariant;
use rootsmith::proof_registry::mock::MockProofRegistry;
use rootsmith::proof_registry::variant::ProofRegistryVariant;
use rootsmith::rootsmith::RootSmith;
use rootsmith::rootsmith::ARCHIVE_THRESHOLD_SECS;
use rootsmith::storage::Storage;
use rootsmith::storage::StorageScanFilter;
use rootsmith::types::IncomingRecord;
use rootsmith::types::Namespace;

use rs_merkle::algorithms::Sha256;
use rs_merkle::Hasher;
use rs_merkle::MerkleTree;

fn ns(id: u8) -> Namespace {
    let mut n = [0u8; 32];
    n[0] = id;
    n
}

fn word(id: u8) -> [u8; 32] {
    let mut k = [0u8; 32];
    k[31] = id;
    k
}

fn record(n: u8, k: u8, v: u8, ts: u64) -> IncomingRecord {
    IncomingRecord { namespace: ns(n), key: word(k), value: word(v), timestamp: ts }
}

fn smith(t: AccumulatorType, interval: u64, now: u64) -> RootSmith {
    RootSmith::new(
        CommitmentRegistryVariant::Mock(MockCommitmentRegistry::new()),
        ProofRegistryVariant::Mock(MockProofRegistry::new()),
        ProofDeliveryVariant::Mock(MockDelivery::new()),
        ArchiveStorageVariant::Mock(MockArchive::new()),
        BaseConfig {
            storage_path: "db".to_string(),
            batch_interval_secs: interval,
            auto_commit: true,
            max_batch_leaves: None,
            accumulator_type: t,
        },
        Storage::new(),
        now,
    )
}

fn merkle_root_of_values(values: &[[u8; 32]]) -> Vec<u8> {
    let leaves: Vec<[u8; 32]> = values.iter().map(|v| Sha256::hash(v)).collect();
    MerkleTree::<Sha256>::from_leaves(&leaves).root().unwrap().to_vec()
}

#[test]
fn rootsmith_no_commit_before_interval() {
    let mut s = smith(AccumulatorType::Merkle, 10, 1000);
    s.record_incoming(&record(1, 1, 1, 1000));
    let (done, notices) = s.process_commit_cycle(1009);
    assert!(!done);
    assert!(notices.is_empty());
    assert_eq!(s.epoch_start_ts, 1000);
    assert_eq!(s.active_namespaces.len(), 1);
}

#[test]
fn rootsmith_commit_cycle_commits_each_active_namespace() {
    let mut s = smith(AccumulatorType::Merkle, 10, 1000);
    s.record_incoming(&record(1, 1, 11, 1001));
    s.record_incoming(&record(2, 2, 22, 1002));
    s.record_incoming(&record(1, 3, 33, 1003));
    // Arrives after the epoch's end: not part of this commit.
    s.record_incoming(&record(1, 4, 44, 1011));
    assert_eq!(s.active_namespaces.len(), 2);

    let (done, notices) = s.process_commit_cycle(1012);
    assert!(done);
    assert_eq!(s.epoch_start_ts, 1012);
    assert!(s.active_namespaces.is_empty());
    assert_eq!(notices.len(), 2);

    assert_eq!(notices[0].namespace, ns(1));
    assert_eq!(notices[0].committed_at, 1010);
    assert_eq!(notices[0].records, vec![(word(1), word(11)), (word(3), word(33))]);
    assert_eq!(notices[0].root, merkle_root_of_values(&[word(11), word(33)]));
    assert_eq!(notices[1].namespace, ns(2));
    assert_eq!(notices[1].records, vec![(word(2), word(22))]);

    let c = match &s.commitment_registry {
        CommitmentRegistryVariant::Mock(m) => m.get_commitments(),
        _ => panic!("mock registry expected"),
    };
    assert_eq!(c.len(), 2);
    assert_eq!(c[0].leaf_count, 2);
    assert_eq!(c[0].commitment.root, notices[0].root);
    assert_eq!(c[1].leaf_count, 1);
    // Records stay in the store until pruned, and are kept for pruning.
    assert_eq!(s.storage.len(), 4);
    assert_eq!(s.committed_records.len(), 3);
}

#[test]
fn rootsmith_cycle_with_no_active_namespace_resets_epoch() {
    let mut s = smith(AccumulatorType::Mock, 5, 100);
    let (done, notices) = s.process_commit_cycle(200);
    // No namespace was seen, so no commit was performed.
    assert!(!done);
    assert!(notices.is_empty());
    assert_eq!(s.epoch_start_ts, 200);
}

#[test]
fn rootsmith_prune_removes_committed_records() {
    let mut s = smith(AccumulatorType::Mock, 10, 1000);
    s.record_incoming(&record(1, 1, 1, 1001));
    s.record_incoming(&record(1, 2, 2, 1005));
    s.record_incoming(&record(2, 3, 3, 1002));
    s.record_incoming(&record(1, 4, 4, 1015));
    s.process_commit_cycle(1010);
    let report = s.prune_committed();
    assert_eq!(report, vec![(ns(1), 1005, 2), (ns(2), 1002, 1)]);
    assert!(s.committed_records.is_empty());
    assert_eq!(s.storage.len(), 1);
    let left = s.storage.scan(&StorageScanFilter { namespace: ns(1), timestamp: None });
    assert_eq!(left[0].key, word(4));
    // Nothing more to prune.
    assert!(s.prune_committed().is_empty());
}

#[test]
fn rootsmith_proof_generation_saves_and_returns_proofs() {
    let mut registry = ProofRegistryVariant::Mock(MockProofRegistry::new());
    let records = vec![
        (word(1), word(10)),
        (word(2), word(20)),
        (word(3), word(30)),
        (word(4), word(40)),
    ];
    let root = merkle_root_of_values(&[word(10), word(20), word(30), word(40)]);
    let proofs = RootSmith::process_proof_generation(
        ns(7),
        &root,
        77,
        &records,
        &mut registry,
        AccumulatorType::Merkle,
    )
    .unwrap();
    assert_eq!(proofs.len(), 4);
    for (i, p) in proofs.iter().enumerate() {
        assert_eq!(p.key, records[i].0);
        assert_eq!(p.root, root);
        assert_eq!(p.namespace, ns(7));
        assert_eq!(p.committed_at, 77);
        // Fold the proof up from the value's leaf.
        let mut cur = Sha256::hash(&records[i].1);
        for node in &p.proof.nodes {
            let mut buf = Vec::new();
            if node.is_left {
                buf.extend_from_slice(&node.sibling);
                buf.extend_from_slice(&cur);
            } else {
                buf.extend_from_slice(&cur);
                buf.extend_from_slice(&node.sibling);
            }
            cur = Sha256::hash(&buf);
        }
        assert_eq!(cur.to_vec(), root);
    }
    match &registry {
        ProofRegistryVariant::Mock(m) => assert_eq!(m.get_proofs().len(), 4),
        _ => panic!("mock registry expected"),
    }
}

#[test]
fn rootsmith_proof_generation_without_proofs_saves_nothing() {
    let mut registry = ProofRegistryVariant::Mock(MockProofRegistry::new());
    let records = vec![(word(1), word(10))];
    let proofs = RootSmith::process_proof_generation(
        ns(7),
        &vec![0u8; 32],
        5,
        &records,
        &mut registry,
        AccumulatorType::Mock,
    )
    .unwrap();
    assert!(proofs.is_empty());
    match &registry {
        ProofRegistryVariant::Mock(m) => assert!(m.get_proofs().is_empty()),
        _ => panic!("mock registry expected"),
    }
}

#[test]
fn rootsmith_archive_cycle_archives_old_records_and_commitments() {
    let day: u64 = 24 * 3600;
    let start: u64 = 100 * day;
    let mut s = smith(AccumulatorType::Mock, 10, start);
    for i in 0..150u8 {
        s.record_incoming(&record(1, i, i, start + 1));
    }
    s.record_incoming(&record(2, 200, 1, start + 2));
    s.process_commit_cycle(start + 20);
    // New records keep the namespaces active.
    s.record_incoming(&record(1, 250, 1, start + 40 * day));
    s.record_incoming(&record(3, 251, 1, start + 40 * day));
    let now = start + 40 * day + 5;
    assert_eq!(ARCHIVE_THRESHOLD_SECS, 30 * day);
    let (records, commitments) = s.archive_cycle(now);
    assert_eq!(records, 150);
    assert_eq!(commitments, 1);
    match &s.archive_storage {
        ArchiveStorageVariant::Mock(a) => assert_eq!(a.count(), 151),
        _ => panic!("mock archive expected"),
    }
}

#[test]
fn rootsmith_archive_cycle_with_nothing_old() {
    let mut s = smith(AccumulatorType::Mock, 10, 1000);
    s.record_incoming(&record(1, 1, 1, 1001));
    assert_eq!(s.archive_cycle(2000), (0, 0));
    let mut idle = smith(AccumulatorType::Mock, 10, 1000);
    assert_eq!(idle.archive_cycle(u64::MAX), (0, 0));
}

#[test]
fn rootsmith_initialize_uses_noop_parts() {
    let s = RootSmith::initialize(
        BaseConfig {
            storage_path: "db".to_string(),
            batch_interval_secs: 3,
            auto_commit: false,
            max_batch_leaves: Some(10),
            accumulator_type: AccumulatorType::SparseMerkle,
        },
        42,
    );
    assert_eq!(s.epoch_start_ts, 42);
    assert_eq!(s.commitment_registry.name(), "noop");
    assert_eq!(s.archive_storage.name(), "noop-archive");
    assert_eq!(s.storage.len(), 0);
}
