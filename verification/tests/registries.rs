use rootsmith::archive::data::ArchiveData;
use rootsmith::archive::data::ArchiveFilter;
use rootsmith::archive::file::FileArchive;
use rootsmith::archive::mock::MockArchive;
use rootsmith::archive::noop::NoopArchive;
use rootsmith::archive::s3_glacier::S3GlacierArchive;
use rootsmith::archive::ArchiveStorageVariant;
use rootsmith::commitment_registry::mock::MockCommitmentRegistry;
use rootsmith::commitment_registry::variant::CommitmentRegistryType;
use rootsmith::commitment_registry::CommitmentRegistryVariant;
use rootsmith::proof_delivery::mock::MockDelivery;
use rootsmith::proof_delivery::variant::ProofDeliveryVariant;
use rootsmith::proof_registry::format::proof_to_json;
use rootsmith::proof_registry::format::to_0x_hex;
use rootsmith::proof_registry::mock::MockProofRegistry;
use rootsmith::proof_registry::variant::ProofRegistryType;
use rootsmith::proof_registry::variant::ProofRegistryVariant;
use rootsmith::storage::Storage;
use rootsmith::storage::StorageDeleteFilter;
use rootsmith::storage::StorageScanFilter;
use rootsmith::types::BatchCommitmentMeta;
use rootsmith::types::Commitment;
use rootsmith::types::CommitmentFilterOptions;
use rootsmith::types::IncomingRecord;
use rootsmith::types::Proof;
use rootsmith::types::ProofNode;
use rootsmith::types::StoredProof;

fn ns(id: u8) -> [u8; 32] {
    let mut n = [0u8; 32];
    n[0] = id;
    n
}

fn meta(n: u8, at: u64, leaves: u64) -> BatchCommitmentMeta {
    BatchCommitmentMeta {
        commitment: Commitment { namespace: ns(n), root: vec![n, 1], committed_at: at },
        leaf_count: leaves,
    }
}

fn stored(key: u8) -> StoredProof {
    StoredProof {
        root: vec![1, 2],
        proof: Proof { nodes: vec![ProofNode { is_left: true, sibling: vec![0xAB, 0x01] }] },
        key: ns(key),
        namespace: ns(9),
        committed_at: 10,
    }
}

#[test]
fn commitment_registry_latest_before_time() {
    let mut r = CommitmentRegistryVariant::new(CommitmentRegistryType::Mock);
    assert_eq!(r.name(), "mock-commitment-registry");
    r.commit(&meta(1, 100, 3)).unwrap();
    r.commit(&meta(1, 200, 4)).unwrap();
    r.commit(&meta(2, 150, 5)).unwrap();
    let prev = r
        .get_prev_commitment(&CommitmentFilterOptions { namespace: ns(1), time: 199 })
        .unwrap()
        .unwrap();
    assert_eq!(prev.committed_at, 100);
    let latest = r
        .get_prev_commitment(&CommitmentFilterOptions { namespace: ns(1), time: 500 })
        .unwrap()
        .unwrap();
    assert_eq!(latest.committed_at, 200);
    assert!(r
        .get_prev_commitment(&CommitmentFilterOptions { namespace: ns(1), time: 99 })
        .unwrap()
        .is_none());
    assert!(r
        .get_prev_commitment(&CommitmentFilterOptions { namespace: ns(3), time: 500 })
        .unwrap()
        .is_none());
}

#[test]
fn commitment_registry_kinds() {
    let noop = CommitmentRegistryVariant::new(CommitmentRegistryType::Noop);
    assert_eq!(noop.name(), "noop");
    let contract = CommitmentRegistryVariant::new(CommitmentRegistryType::Contract);
    assert_eq!(contract.name(), "contract");
    assert!(contract
        .get_prev_commitment(&CommitmentFilterOptions { namespace: ns(1), time: 5 })
        .unwrap()
        .is_none());
    let mut m = MockCommitmentRegistry::new();
    m.commit(&meta(4, 1, 1)).unwrap();
    assert_eq!(m.get_commitments().len(), 1);
}

#[test]
fn proof_registry_mock_keeps_proofs() {
    let mut r = ProofRegistryVariant::new(ProofRegistryType::Mock);
    assert_eq!(r.name(), "mock-proof-registry");
    r.save_proof(&stored(1)).unwrap();
    r.save_proofs(&[stored(2), stored(3)]).unwrap();
    match &r {
        ProofRegistryVariant::Mock(m) => {
            let kept = m.get_proofs();
            assert_eq!(kept.len(), 3);
            assert_eq!(kept[2].key, ns(3));
        },
        _ => panic!("mock registry expected"),
    }
    for (t, name) in [
        (ProofRegistryType::S3, "s3"),
        (ProofRegistryType::Github, "github"),
        (ProofRegistryType::Noop, "noop-proof"),
    ] {
        let mut other = ProofRegistryVariant::new(t);
        assert_eq!(other.name(), name);
        other.save_proofs(&[stored(1)]).unwrap();
    }
    let mut direct = MockProofRegistry::new();
    direct.save_proof(&stored(5)).unwrap();
    assert_eq!(direct.get_proofs()[0].key, ns(5));
}

#[test]
fn proof_format_hex_and_json() {
    assert_eq!(to_0x_hex(&[]), "0x");
    assert_eq!(to_0x_hex(&[0x00, 0xAB, 0x10]), "0x00ab10");
    let json = proof_to_json(Proof {
        nodes: vec![
            ProofNode { is_left: true, sibling: vec![0xFF] },
            ProofNode { is_left: false, sibling: vec![0x01, 0x02] },
        ],
    });
    assert_eq!(json.len(), 2);
    assert_eq!(json[0].direction, "left");
    assert_eq!(json[0].sibling, "0xff");
    assert_eq!(json[1].direction, "right");
    assert_eq!(json[1].sibling, "0x0102");
}

#[test]
fn proof_delivery_mock_records_deliveries() {
    let mut d = ProofDeliveryVariant::Mock(MockDelivery::new());
    assert_eq!(d.name(), "mock-delivery");
    d.open().unwrap();
    d.deliver(&stored(1)).unwrap();
    d.deliver_batch(&[stored(2), stored(3)]).unwrap();
    d.close().unwrap();
    match &mut d {
        ProofDeliveryVariant::Mock(m) => {
            assert_eq!(m.get_delivered().len(), 3);
            m.clear();
            assert!(m.get_delivered().is_empty());
        },
        _ => panic!("mock delivery expected"),
    }
}

#[test]
fn mock_archive_ids_query_and_delete() {
    let mut a = MockArchive::new();
    assert_eq!(a.name(), "mock-archive");
    let rec = IncomingRecord { namespace: ns(1), key: ns(2), value: ns(3), timestamp: 4 };
    let id1 = a.archive(&ArchiveData::Record(rec)).unwrap();
    assert_eq!(id1, "archive_00000001");
    let ids = a
        .archive_batch(&[ArchiveData::Commitment(meta(2, 5, 1)), ArchiveData::Proof(stored(1))])
        .unwrap();
    assert_eq!(ids, vec!["archive_00000002".to_string(), "archive_00000003".to_string()]);
    assert_eq!(a.count(), 3);
    match a.retrieve("archive_00000001").unwrap().unwrap() {
        ArchiveData::Record(r) => assert_eq!(r.timestamp, 4),
        _ => panic!("record expected"),
    }
    assert!(a.retrieve("archive_00000009").unwrap().is_none());
    // Namespace 1 matches the record and, having no namespace, the proof.
    let q = a.query(&ArchiveFilter { namespace: Some(ns(1)) }).unwrap();
    assert_eq!(q, vec!["archive_00000001".to_string(), "archive_00000003".to_string()]);
    let all = a.query(&ArchiveFilter { namespace: None }).unwrap();
    assert_eq!(all.len(), 3);
    let batch = ArchiveData::RecordBatch(vec![rec]);
    assert!(batch.matches(&ArchiveFilter { namespace: Some(ns(1)) }));
    assert!(!batch.matches(&ArchiveFilter { namespace: Some(ns(2)) }));
    assert!(a.delete("archive_00000002").unwrap());
    assert!(!a.delete("archive_00000002").unwrap());
    assert_eq!(a.get_all().len(), 2);
    a.clear();
    assert_eq!(a.count(), 0);
    assert_eq!(a.archive(&ArchiveData::Record(rec)).unwrap(), "archive_00000001");
}

fn is_uuid_v4_form(s: &str) -> bool {
    let c: Vec<char> = s.chars().collect();
    c.len() == 36
        && c.iter().enumerate().all(|(i, ch)| {
            if [8, 13, 18, 23].contains(&i) {
                *ch == '-'
            } else {
                ch.is_ascii_digit() || ('a'..='f').contains(ch)
            }
        })
        && c[14] == '4'
        && ['8', '9', 'a', 'b'].contains(&c[19])
}

#[test]
fn archive_backends_without_storage() {
    let rec = IncomingRecord { namespace: ns(1), key: ns(2), value: ns(3), timestamp: 4 };
    let noop = NoopArchive;
    assert_eq!(noop.name(), "noop-archive");
    let file = FileArchive::new("/tmp/archive".to_string());
    let id = file.archive(&ArchiveData::Record(rec)).unwrap();
    assert!(is_uuid_v4_form(&id));
    let s3 = S3GlacierArchive::new("bucket".to_string(), "eu-west-1".to_string());
    assert_eq!(s3.name(), "s3-glacier");
    let ids = s3.archive_batch(&[ArchiveData::Record(rec), ArchiveData::Record(rec)]).unwrap();
    assert_eq!(ids.len(), 2);
    assert!(ids.iter().all(|i| is_uuid_v4_form(i)));
    let mut v = ArchiveStorageVariant::File(file);
    assert_eq!(v.name(), "file-archive");
    assert!(v.retrieve("x").unwrap().is_none());
    assert_eq!(v.archive_batch(&[ArchiveData::Record(rec)]).unwrap().len(), 1);
}

#[test]
fn storage_get_scan_delete() {
    let mut s = Storage::new();
    let r1 = IncomingRecord { namespace: ns(1), key: ns(7), value: ns(1), timestamp: 10 };
    let r2 = IncomingRecord { namespace: ns(1), key: ns(7), value: ns(2), timestamp: 20 };
    let r3 = IncomingRecord { namespace: ns(2), key: ns(7), value: ns(3), timestamp: 15 };
    s.put(&r1);
    s.put(&r2);
    s.put(&r3);
    assert_eq!(s.get(&ns(1), &ns(7), None).unwrap().value, ns(2));
    assert_eq!(s.get(&ns(1), &ns(7), Some(10)).unwrap().value, ns(1));
    assert!(s.get(&ns(1), &ns(8), None).is_none());
    assert_eq!(s.scan(&StorageScanFilter { namespace: ns(1), timestamp: Some(15) }).len(), 1);
    assert_eq!(s.scan(&StorageScanFilter { namespace: ns(1), timestamp: None }).len(), 2);
    assert_eq!(s.delete(&StorageDeleteFilter { namespace: ns(1), timestamp: 15 }), 1);
    assert_eq!(s.len(), 2);
    assert_eq!(s.get(&ns(1), &ns(7), None).unwrap().value, ns(2));
}
