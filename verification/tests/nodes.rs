use hypha::gateway::{connected, relay_address, through_circuit};
use hypha::ids::{PeerId, Uuid};
use hypha::messages::headers::DataRecord;
use hypha::messages::health;
use hypha::network::{BuildStage, Service, Support, SwarmError, ACTION_QUEUE, IDENTIFY_PROTOCOL};
use hypha::retry::{longest_delays, retry_delays};
use hypha::startup::{
    credential_files, get_data_provider, probe_verdict, DatasetEntry, Readiness,
};
use hypha::time::{Duration, Instant, SystemTime};
use libp2p::multiaddr::Protocol;
use libp2p::Multiaddr;

fn key_peer(n: u8) -> (PeerId, libp2p::PeerId) {
    let digest = [n; 32];
    let word = u128::from_be_bytes([n; 16]);
    let hash = libp2p::multihash::Multihash::<64>::wrap(0x12, &digest).unwrap();
    (
        PeerId { code: 0x12, size: 32, d0: word, d1: word, d2: 0, d3: 0 },
        libp2p::PeerId::from_multihash(hash).unwrap(),
    )
}

#[test]
fn peers_have_the_text_of_their_multihash() {
    let (peer, theirs) = key_peer(7);
    assert_eq!(peer.to_base58(), theirs.to_base58());
    let inlined = PeerId { code: 0, size: 2, d0: 0x0102 << 112, d1: 0, d2: 0, d3: 0 };
    let hash = libp2p::multihash::Multihash::<64>::wrap(0, &[1, 2]).unwrap();
    let theirs = libp2p::PeerId::from_multihash(hash).unwrap();
    assert_eq!(inlined.to_base58(), theirs.to_base58());
}

#[test]
fn identifiers_have_their_hyphenated_text() {
    let id = Uuid { bits: 0xa1a2a3a4b1b2c1c2d1d2d3d4d5d6d7d8 };
    assert_eq!(id.to_string(), "a1a2a3a4-b1b2-c1c2-d1d2-d3d4d5d6d7d8");
    let fresh = Uuid::new_v4();
    assert_eq!(fresh.to_string(), format!("{:?}", uuid::Uuid::from_u128(fresh.bits)));
    assert_eq!(&fresh.to_string()[14..15], "4");
    assert_ne!(fresh, Uuid::new_v4());
}

#[test]
fn a_circuit_goes_through_the_gateway() {
    let (peer, theirs) = key_peer(3);
    let address: Multiaddr = "/ip4/203.0.113.10/tcp/55000".parse().unwrap();
    let expected = address.clone().with_p2p(theirs).unwrap().with(Protocol::P2pCircuit);
    let relay = relay_address(true, &address.to_vec(), peer).unwrap().unwrap();
    assert_eq!(relay, expected.to_vec());
    assert_eq!(Multiaddr::try_from(relay).unwrap(), expected);

    let named = address.with_p2p(theirs).unwrap();
    let relay = relay_address(true, &named.to_vec(), peer).unwrap().unwrap();
    assert_eq!(relay, expected.to_vec());
    assert_eq!(relay_address(false, &named.to_vec(), peer), Ok(None));
}

#[test]
fn a_circuit_needs_the_dialed_gateway() {
    let (peer, _) = key_peer(3);
    let (_, other) = key_peer(4);
    let address: Multiaddr = "/ip4/203.0.113.10/tcp/55000".parse().unwrap();
    let named = address.with_p2p(other).unwrap();
    let error = relay_address(true, &named.to_vec(), peer).unwrap_err();
    assert_eq!(error, "Failed to construct circuit address");
    assert_eq!(relay_address(true, &vec![0xFF], peer).unwrap_err(), error);
    assert_eq!(through_circuit(None).unwrap_err(), error);
    assert_eq!(through_circuit(Some(vec![1])), Ok(vec![1, 0xA2, 0x02]));
}

#[test]
fn one_gateway_is_enough() {
    let (a, _) = key_peer(1);
    let (b, _) = key_peer(2);
    let refused = || Err("refused".to_string());
    assert_eq!(connected(&vec![refused(), Ok(b), Ok(a), refused()]), Ok(vec![b, a]));
    assert_eq!(
        connected(&vec![refused()]).unwrap_err(),
        "Failed to connect to any gateway"
    );
    assert!(connected(&vec![]).is_err());
}

#[test]
fn delays_grow_with_each_retry() {
    assert_eq!(longest_delays(), vec![100, 10_000, 1_000_000]);
    for _ in 0..100 {
        let delays = retry_delays();
        assert_eq!(delays.len(), 3);
        for (delay, longest) in delays.iter().zip(longest_delays()) {
            assert!(delay.nanos <= Duration::from_millis(longest).nanos);
        }
    }
    let first = retry_delays();
    assert!((0..10).any(|_| retry_delays() != first));
}

#[test]
fn credentials_are_named_after_the_node() {
    let files = credential_files("worker-1");
    assert_eq!(files.cert_pem, "worker-1-cert.pem");
    assert_eq!(files.key_pem, "worker-1-key.pem");
    assert_eq!(files.trust_pem, "worker-1-trust.pem");
}

#[test]
fn a_node_is_ready_when_it_listens_is_connected_and_has_bootstrapped() {
    let (gateway, _) = key_peer(1);
    let refused = || Err("refused".to_string());
    let mut readiness = Readiness::new();
    assert!(!readiness.health().healthy);
    readiness.now_listening();
    assert!(!readiness.health().healthy);
    assert_eq!(readiness.now_connected(&vec![refused(), Ok(gateway)]), Ok(vec![gateway]));
    assert!(!readiness.health().healthy);
    readiness.now_bootstrapped();
    assert!(readiness.health().healthy);

    let mut readiness = Readiness::new();
    readiness.now_bootstrapped();
    assert!(!readiness.health().healthy);
    assert!(readiness.now_connected(&vec![Ok(gateway)]).is_ok());
    assert!(!readiness.health().healthy);
}

#[test]
fn a_node_without_a_gateway_is_never_ready() {
    let mut readiness = Readiness::new();
    readiness.now_listening();
    for results in [vec![], vec![Err("refused".to_string())]] {
        let error = readiness.now_connected(&results).unwrap_err();
        assert_eq!(error, "Failed to connect to any gateway");
        readiness.now_bootstrapped();
        assert!(!readiness.health().healthy);
    }
}

#[test]
fn a_ready_node_stays_ready() {
    let (gateway, _) = key_peer(1);
    let mut readiness = Readiness::new();
    readiness.now_listening();
    assert!(readiness.now_connected(&vec![Ok(gateway)]).is_ok());
    readiness.now_bootstrapped();
    assert!(readiness.health().healthy);
    assert!(readiness.now_connected(&vec![Err("refused".to_string())]).is_err());
    assert!(readiness.health().healthy);
    readiness.now_listening();
    readiness.now_bootstrapped();
    assert!(readiness.health().healthy);
}

#[test]
fn a_probe_passes_on_what_it_heard() {
    assert_eq!(probe_verdict(&health::Response { healthy: true }), Ok(()));
    assert_eq!(
        probe_verdict(&health::Response { healthy: false }),
        Err("unhealthy".to_string())
    );
}

#[test]
fn a_dataset_needs_a_publisher_and_a_record() {
    let (peer, _) = key_peer(5);
    let record = || Ok(DataRecord { num_slices: 12 });
    let entry = DatasetEntry { publisher: Some(peer), record: record() };
    let (provider, found) = get_data_provider("mnist", Ok(entry)).unwrap();
    assert_eq!(provider, peer);
    assert_eq!(found.num_slices, 12);

    let lookup = Err("not found".to_string());
    assert_eq!(
        get_data_provider("mnist", lookup).unwrap_err(),
        "No data provider found for dataset \"mnist\": not found"
    );
    let entry = DatasetEntry { publisher: None, record: record() };
    assert_eq!(
        get_data_provider("mnist", Ok(entry)).unwrap_err(),
        "No data provider found for dataset \"mnist\""
    );
    let entry = DatasetEntry { publisher: Some(peer), record: Err("eof".to_string()) };
    assert_eq!(
        get_data_provider("mnist", Ok(entry)).unwrap_err(),
        "Failed to parse dataset record for dataset \"mnist\": eof"
    );
}

#[test]
fn services_speak_protocols_of_their_own() {
    let services = [Service::Api, Service::Health, Service::Progress, Service::Action];
    let identifiers = [
        "/hypha-api/0.0.1",
        "/hypha-health/0.0.1",
        "/hypha-progress/0.0.1",
        "/hypha-action/0.0.1",
    ];
    for (service, identifier) in services.iter().zip(identifiers) {
        assert_eq!(service.identifier(), identifier);
        let full = *service != Service::Health;
        assert_eq!(service.support(), if full { Support::Full } else { Support::Outbound });
    }
    assert_eq!(IDENTIFY_PROTOCOL, "/hypha-identify/0.0.1");
    assert_eq!(ACTION_QUEUE, 5);
}

#[test]
fn a_failed_stage_is_told() {
    let told = |stage| match SwarmError::at(stage) {
        SwarmError::TransportConfig(text) => ("transport", text),
        SwarmError::BehaviourCreation(text) => ("behaviour", text),
    };
    let tcp = "Failed to create TCP transport with mTLS.".to_string();
    assert_eq!(told(BuildStage::Tcp), ("transport", tcp));
    assert_eq!(told(BuildStage::Dns), ("transport", "Failed to setup DNS".to_string()));
    let relay = "Failed to create relay client with mTLS.".to_string();
    assert_eq!(told(BuildStage::RelayClient), ("transport", relay));
    let behaviour = "Failed to create swarm behavior.".to_string();
    assert_eq!(told(BuildStage::Behaviour), ("behaviour", behaviour));
}

#[test]
fn clocks_measure_forward() {
    let early = Instant { nanos: 5 };
    let late = Instant { nanos: 12 };
    assert_eq!(late.duration_since(early), Duration { nanos: 7 });
    assert_eq!(early.duration_since(late), Duration { nanos: 0 });
    assert_eq!(Duration::from_secs(2).as_millis(), 2_000);
    assert_eq!(Duration { nanos: 1_999_999 }.as_millis(), 1);

    let before = SystemTime { nanos: -5 };
    let after = before.after_millis(1);
    assert_eq!(after.nanos, 999_995);
    assert_eq!(after.duration_since(before), Some(Duration::from_millis(1)));
    assert_eq!(before.duration_since(after), None);
    let end = SystemTime { nanos: i128::MAX };
    let start = SystemTime { nanos: i128::MIN };
    assert_eq!(end.duration_since(start), Some(Duration { nanos: u128::MAX }));
}
