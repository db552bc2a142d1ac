use rootsmith::accumulator::external_service::AccumulatorConfig;
use rootsmith::accumulator::external_service::ExternalServiceAccumulator;
use rootsmith::accumulator::external_service::ExternalServiceConfig;
use rootsmith::accumulator::external_service::HttpTransportConfig;
use rootsmith::accumulator::external_service::Transport;
use rootsmith::accumulator::external_service::TransportConfig;
use rootsmith::accumulator::external_service::WireProtocol;
use rootsmith::archiver::ArchiveConfig;
use rootsmith::archiver::ArchiveVariant;
use rootsmith::downstream::commitment_contract::CommitmentContract;
use rootsmith::downstream::commitment_contract::LegacyCommitment;
use rootsmith::downstream::proof_github::LegacyProof;
use rootsmith::downstream::proof_github::ProofGithub;
use rootsmith::downstream::proof_s3::ProofS3;
use rootsmith::downstream::BlackholeDownstream;
use rootsmith::downstream::DownstreamConfig;
use rootsmith::downstream::DownstreamVariant;
use rootsmith::downstream::Downstream;
use rootsmith::downstream::MockDownstream;
use rootsmith::feature_select::FeatureSelector;
use rootsmith::types::CommitmentResult;
use rootsmith::types::Record;

fn result(tag: u8) -> CommitmentResult {
    CommitmentResult {
        commitment: vec![tag; 4],
        proofs: None,
        committed_at: tag as u64,
        namespaces: vec![[tag; 32]],
        item_count: 1,
        timestamp: tag as u64,
    }
}

#[test]
fn feature_selector_checks_names() {
    let f = FeatureSelector::new(vec!["proofs".to_string(), "archive".to_string()]);
    assert!(f.is_enabled("proofs"));
    assert!(f.is_enabled("archive"));
    assert!(!f.is_enabled("prune"));
    assert!(!f.is_enabled("proof"));
    let d = FeatureSelector::default();
    assert!(!d.is_enabled("proofs"));
}

#[test]
fn downstream_mock_and_blackhole() {
    let mut m = MockDownstream::new();
    assert_eq!(m.name(), "mock");
    m.handle(&result(1)).unwrap();
    m.handle(&result(2)).unwrap();
    let calls = m.get_calls();
    assert_eq!(calls.len(), 2);
    assert_eq!(calls[1].commitment, vec![2; 4]);
    assert_eq!(calls[1].committed_at, 2);
    let mut b = BlackholeDownstream::new();
    assert_eq!(b.name(), "blackhole");
    b.handle(&result(3)).unwrap();
}

#[test]
fn legacy_contract_registers_and_verifies() {
    let mut c = CommitmentContract::new("0xabc".to_string());
    let one = LegacyCommitment { epoch: 1, merkle_root: "aa".to_string() };
    assert!(!c.verify(&one).unwrap());
    c.register(&one).unwrap();
    assert!(c.verify(&one).unwrap());
    assert!(!c.verify(&LegacyCommitment { epoch: 2, merkle_root: "aa".to_string() }).unwrap());
    assert!(!c.verify(&LegacyCommitment { epoch: 1, merkle_root: "ab".to_string() }).unwrap());
}

#[test]
fn legacy_proof_stores_name_proofs() {
    let mut g = ProofGithub::new("owner/repo".to_string(), "main".to_string());
    let id = g.store(&LegacyProof { block_number: 42 }).unwrap();
    assert!(id.starts_with("proof_42_"));
    assert_eq!(id.len(), "proof_42_".len() + 36);
    assert!(g.retrieve(&id).unwrap().is_none());
    let mut s = ProofS3::new("bucket".to_string(), "us-east-1".to_string());
    let id2 = s.store(&LegacyProof { block_number: 0 }).unwrap();
    assert!(id2.starts_with("proof_0_"));
    assert_ne!(id, id2);
}

#[test]
fn archiver_variant_from_config() {
    let s3 = ArchiveVariant::new(ArchiveConfig::S3 {
        bucket: "b".to_string(),
        region: "r".to_string(),
        prefix: None,
    });
    assert_eq!(s3.name(), "s3-glacier-archive");
    let file = ArchiveVariant::new(ArchiveConfig::File { directory: "/tmp/a".to_string() });
    assert_eq!(file.name(), "file-archive");
    match ArchiveVariant::new(ArchiveConfig::S3 {
        bucket: "b".to_string(),
        region: "r".to_string(),
        prefix: Some("p".to_string()),
    }) {
        ArchiveVariant::S3(a) => assert_eq!(a.name(), "s3-glacier"),
        _ => panic!("s3 archive expected"),
    }
}

#[test]
fn external_service_transport_and_payload() {
    let cfg = ExternalServiceConfig {
        transport: TransportConfig::HttpConfig(HttpTransportConfig {
            base_url: "http://svc".to_string(),
            headers: vec![("x-api-key".to_string(), "k".to_string())],
            endpoint: "http://svc/v1/jobs".to_string(),
        }),
        wire_protocol: WireProtocol::Protobuf,
    };
    let acc = ExternalServiceAccumulator::new(cfg);
    match &acc.transport {
        Transport::Http { endpoint, headers } => {
            assert_eq!(endpoint, "http://svc/v1/jobs");
            assert_eq!(headers.len(), 1);
            assert_eq!(headers[0].0, "x-api-key");
        },
    }
    let body = ExternalServiceAccumulator::payload(&[
        Record { namespace: [5u8; 32], key: [0u8; 32], value: vec![1, 2] },
        Record { namespace: [5u8; 32], key: [1u8; 32], value: vec![] },
        Record { namespace: [6u8; 32], key: [2u8; 32], value: vec![3] },
    ]);
    assert_eq!(body, vec![1, 2, 3]);
    let none = AccumulatorConfig { external: None };
    assert!(none.external.is_none());
}

#[test]
fn downstream_variant_from_config() {
    let mut s3 = DownstreamVariant::new(DownstreamConfig::S3 {
        bucket: "results".to_string(),
        region: "us-east-1".to_string(),
        api_key: None,
    });
    assert_eq!(s3.name(), "s3-downstream");
    match &s3 {
        DownstreamVariant::S3(inner) => {
            assert_eq!(inner.bucket, "results");
            assert_eq!(inner.region, "us-east-1");
            assert!(inner.api_key.is_none());
        }
        _ => panic!("s3 consumer expected"),
    }
    assert!(s3.handle(&result(1)).is_ok());
    let mut b = DownstreamVariant::new(DownstreamConfig::Blackhole);
    assert_eq!(b.name(), "blackhole-downstream");
    assert!(b.handle(&result(2)).is_ok());
}
