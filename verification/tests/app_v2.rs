use rootsmith::app::App;
use rootsmith::app_v2::AppV2;
use rootsmith::commitment_registry::mock::MockCommitmentRegistry;
use rootsmith::commitment_registry::CommitmentRegistryVariant;
use rootsmith::config::BaseConfig;
use rootsmith::crypto::variant::AccumulatorType;
use rootsmith::proof_registry::mock::MockProofRegistry;
use rootsmith::proof_registry::variant::ProofRegistryVariant;
use rootsmith::storage::Storage;
use rootsmith::types::BatchCommitmentMeta;
use rootsmith::types::IncomingRecord;
use rootsmith::types::Namespace;

fn test_namespace(id: u8) -> Namespace {
    let mut ns = [0u8; 32];
    ns[0] = id;
    ns
}

fn test_key(id: u8) -> [u8; 32] {
    let mut key = [0u8; 32];
    key[0] = id;
    key
}

fn test_value(bytes: &[u8]) -> [u8; 32] {
    let mut v = [0u8; 32];
    v[..bytes.len()].copy_from_slice(bytes);
    v
}

fn config(interval: u64) -> BaseConfig {
    BaseConfig {
        storage_path: "test_db".to_string(),
        batch_interval_secs: interval,
        auto_commit: true,
        max_batch_leaves: None,
        accumulator_type: AccumulatorType::Mock,
    }
}

fn mock_app(interval: u64, epoch_start: u64) -> AppV2 {
    AppV2::with_epoch_start(
        CommitmentRegistryVariant::Mock(MockCommitmentRegistry::new()),
        ProofRegistryVariant::Mock(MockProofRegistry::new()),
        config(interval),
        Storage::new(),
        epoch_start,
    )
}

fn commitments(app: &AppV2) -> Vec<BatchCommitmentMeta> {
    match &app.commitment_registry {
        CommitmentRegistryVariant::Mock(m) => m.get_commitments(),
        _ => panic!("expected a mock registry"),
    }
}

#[test]
fn test_e2e_with_2s_commit_phase() {
    let base_timestamp: u64 = 1_700_000_000;
    let namespace1 = test_namespace(1);
    let namespace2 = test_namespace(2);

    let mut test_records = vec![];
    for i in 0..5u8 {
        test_records.push(IncomingRecord {
            namespace: namespace1,
            key: test_key(i),
            value: test_value(&[i, i + 1, i + 2]),
            timestamp: base_timestamp,
        });
    }
    for i in 0..3u8 {
        test_records.push(IncomingRecord {
            namespace: namespace2,
            key: test_key(i + 10),
            value: test_value(&[i + 10, i + 11, i + 12]),
            timestamp: base_timestamp,
        });
    }

    let mut app = mock_app(2, base_timestamp);
    for record in test_records.iter() {
        app.handle_incoming_record(*record).unwrap();
    }

    // Three seconds later the 2-second commit phase is due.
    let now = base_timestamp + 3;
    if app.should_commit_at(now) {
        app.perform_commit_at(now).unwrap();
    }

    let commitments = commitments(&app);
    assert!(
        commitments.len() >= 2,
        "Expected at least 2 commitments (one per namespace), got {}",
        commitments.len()
    );
    let ns1 = commitments
        .iter()
        .find(|c| c.commitment.namespace == namespace1)
        .expect("Missing commitment for namespace1");
    assert_eq!(ns1.leaf_count, 5);
    let ns2 = commitments
        .iter()
        .find(|c| c.commitment.namespace == namespace2)
        .expect("Missing commitment for namespace2");
    assert_eq!(ns2.leaf_count, 3);
}

#[test]
fn test_data_flow() {
    let base_timestamp: u64 = 1_700_000_000;
    let namespace = test_namespace(42);
    let record = IncomingRecord {
        namespace,
        key: test_key(1),
        value: test_value(&[1, 2, 3, 4, 5]),
        timestamp: base_timestamp,
    };

    let mut app = mock_app(1, base_timestamp);
    app.handle_incoming_record(record).unwrap();

    let stored = app.storage.get(&namespace, &record.key, None);
    assert!(stored.is_some(), "Record should be in storage");

    // 1.1 seconds later (rounded up to whole seconds by the clock).
    app.perform_commit_at(base_timestamp + 2).unwrap();

    let commitments = commitments(&app);
    assert_eq!(commitments.len(), 1, "Should have 1 commitment");
    assert_eq!(commitments[0].leaf_count, 1, "Should have 1 leaf");
}

#[test]
fn test_multiple_commit_cycles() {
    let base_timestamp: u64 = 1_700_000_000;
    let namespace = test_namespace(99);
    let mut app = mock_app(1, base_timestamp);

    // Cycle 1
    for i in 0..2u8 {
        app.handle_incoming_record(IncomingRecord {
            namespace,
            key: test_key(i),
            value: test_value(&[i]),
            timestamp: base_timestamp,
        })
        .unwrap();
    }
    let first_commit = base_timestamp + 2;
    app.perform_commit_at(first_commit).unwrap();

    // Cycle 2
    let cycle2_timestamp = first_commit;
    for i in 10..13u8 {
        app.handle_incoming_record(IncomingRecord {
            namespace,
            key: test_key(i),
            value: test_value(&[i]),
            timestamp: cycle2_timestamp,
        })
        .unwrap();
    }
    app.perform_commit_at(first_commit + 2).unwrap();

    let commitments = commitments(&app);
    assert_eq!(commitments.len(), 2, "Should have 2 commitments (one per cycle)");
    assert_eq!(commitments[0].leaf_count, 2, "Cycle 1 should have 2 leaves");
    assert_eq!(commitments[1].leaf_count, 3, "Cycle 2 should have 3 leaves");
}

#[test]
fn app_v2_commit_time_is_epoch_end_and_records_leave_the_store() {
    let mut app = mock_app(10, 100);
    let ns = test_namespace(5);
    app.handle_incoming_record(IncomingRecord {
        namespace: ns,
        key: test_key(1),
        value: test_value(&[7]),
        timestamp: 105,
    })
    .unwrap();
    assert!(!app.should_commit_at(109));
    assert!(app.should_commit_at(110));
    // A clock behind the epoch start is no reason to commit.
    assert!(!app.should_commit_at(50));
    app.perform_commit_at(125).unwrap();
    let c = commitments(&app);
    assert_eq!(c.len(), 1);
    assert_eq!(c[0].commitment.committed_at, 110);
    // Mock accumulator root: XOR of the key and the value.
    let mut expected = [0u8; 32];
    expected[0] = 1 ^ 7;
    assert_eq!(c[0].commitment.root, expected.to_vec());
    assert_eq!(app.storage.len(), 0);
    assert_eq!(app.epoch_start_ts(), 125);
    assert!(app.active_namespaces().is_empty());
}

#[test]
fn app_v2_record_after_epoch_end_waits_for_next_commit() {
    let mut app = mock_app(10, 100);
    let ns = test_namespace(6);
    app.handle_incoming_record(IncomingRecord {
        namespace: ns,
        key: test_key(2),
        value: test_value(&[1]),
        timestamp: 115,
    })
    .unwrap();
    app.perform_commit_at(120).unwrap();
    assert!(commitments(&app).is_empty());
    assert_eq!(app.storage.len(), 1);
}

#[test]
fn app_first_version_commits_whole_namespace() {
    let mut app = App::new(
        CommitmentRegistryVariant::Mock(MockCommitmentRegistry::new()),
        ProofRegistryVariant::Mock(MockProofRegistry::new()),
        config(1),
        Storage::new(),
    );
    let ns = test_namespace(3);
    for i in 0..3u8 {
        app.handle_incoming_record(IncomingRecord {
            namespace: ns,
            key: test_key(i),
            value: test_value(&[i]),
            timestamp: 1000 + i as u64,
        })
        .unwrap();
    }
    app.finalize_namespace_batch_at(&ns, 5000).unwrap();
    app.finalize_namespace_batch_at(&test_namespace(4), 5000).unwrap();
    let c = match &app.commitment_registry {
        CommitmentRegistryVariant::Mock(m) => m.get_commitments(),
        _ => panic!("expected a mock registry"),
    };
    assert_eq!(c.len(), 1);
    assert_eq!(c[0].leaf_count, 3);
    assert_eq!(c[0].commitment.committed_at, 5000);
    assert_eq!(app.storage.len(), 3);
}
