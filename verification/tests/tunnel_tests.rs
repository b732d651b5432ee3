use iox2_zenoh_tunnel::keys;
use iox2_zenoh_tunnel::service::MessagingPattern;
use iox2_zenoh_tunnel::service::ServiceId;
use iox2_zenoh_tunnel::service::StaticDetails;
use iox2_zenoh_tunnel::service::TypeDetail;
use iox2_zenoh_tunnel::service::TypeVariant;
use iox2_zenoh_tunnel::tunnel::StreamBatch;
use iox2_zenoh_tunnel::tunnel::Tunnel;

fn mock_service_id(token: &str) -> ServiceId {
    ServiceId::new(String::from(token)).unwrap()
}

fn mock_details(token: &str, name: &str) -> StaticDetails {
    StaticDetails {
        service_id: mock_service_id(token),
        name: String::from(name),
        pattern: MessagingPattern::PublishSubscribe,
        payload: TypeDetail {
            variant: TypeVariant::Dynamic,
            name: String::from("u8"),
            size: 1,
            alignment: 1,
        },
        user_header: TypeDetail {
            variant: TypeVariant::FixedSize,
            name: String::from("()"),
            size: 0,
            alignment: 1,
        },
    }
}

fn local_batch(id: &ServiceId, samples: Vec<Vec<u8>>) -> StreamBatch {
    StreamBatch {
        service_id: id.clone(),
        local_samples: samples,
        overlay_samples: Vec::new(),
    }
}

#[test]
fn discovers_local_services() {
    let mut tunnel = Tunnel::new(1);
    tunnel.initialize();
    assert_eq!(tunnel.stream_ids().len(), 0);

    let details = mock_details("test_tunnel_zenoh_1", "service_a");
    let setups = tunnel.discover(&vec![details]);

    assert_eq!(tunnel.stream_ids().len(), 1);
    assert!(tunnel.stream_ids().contains(&String::from("test_tunnel_zenoh_1")));
    assert_eq!(setups.len(), 1);
    assert_eq!(setups[0].inbound_depth, 10);
    assert!(setups[0].inbound_remote_only);
}

// Drives payloads from host A's local transport through A's tunnel, the
// overlay, and host B's tunnel, one sample at a time, checking each
// delivery byte for byte.
fn propagates_payloads(payloads: Vec<Vec<u8>>) {
    let token = "test_tunnel_zenoh_2";
    let details_a = mock_details(token, "service_b");
    let details_b = mock_details(token, "service_b");

    let mut tunnel_a = Tunnel::new(1);
    tunnel_a.initialize();
    assert_eq!(tunnel_a.stream_ids().len(), 0);

    let mut tunnel_b = Tunnel::new(2);
    tunnel_b.initialize();
    assert_eq!(tunnel_b.stream_ids().len(), 0);

    let id = details_a.service_id.clone();
    tunnel_a.discover(&vec![details_a]);
    tunnel_b.discover(&vec![details_b]);
    assert_eq!(tunnel_a.stream_ids().len(), 1);
    assert!(tunnel_a.stream_ids().contains(&String::from(token)));
    assert_eq!(tunnel_b.stream_ids().len(), 1);
    assert!(tunnel_b.stream_ids().contains(&String::from(token)));

    for payload in payloads {
        // Publish on host A.
        let actions_a = tunnel_a.propagate(&vec![local_batch(&id, vec![payload.clone()])]);
        assert_eq!(actions_a.len(), 1);
        assert_eq!(actions_a[0].publishes.len(), 1);

        // Carry the overlay messages over to host B.
        let overlay: Vec<_> = actions_a[0].publishes.clone();
        let batch_b = StreamBatch {
            service_id: id.clone(),
            local_samples: Vec::new(),
            overlay_samples: overlay,
        };
        let actions_b = tunnel_b.propagate(&vec![batch_b]);
        assert_eq!(actions_b.len(), 1);
        assert_eq!(actions_b[0].deliveries.len(), 1);
        assert_eq!(actions_b[0].deliveries[0], payload);
    }
}

fn struct_payload(i: usize) -> Vec<u8> {
    let id: u32 = 42 + i as u32;
    let value: f64 = 3.14 + i as f64;
    let active: bool = i % 2 == 0;
    let mut bytes = Vec::new();
    bytes.extend_from_slice(&id.to_le_bytes());
    bytes.extend_from_slice(&value.to_le_bytes());
    bytes.push(if active { 1 } else { 0 });
    bytes
}

#[test]
fn propagates_struct_payload_single_sample() {
    propagates_payloads((0..1).map(struct_payload).collect());
}

#[test]
fn propagates_struct_payload_two_samples() {
    propagates_payloads((0..2).map(struct_payload).collect());
}

#[test]
fn propagates_struct_payload_ten_samples() {
    propagates_payloads((0..10).map(struct_payload).collect());
}

fn slice_payload(i: usize) -> Vec<u8> {
    let mut payload = Vec::with_capacity(256);
    for j in 0..256 {
        let char_index = ((i * 7 + j * 13) % 26) as u8;
        payload.push(b'A' + char_index);
    }
    payload
}

#[test]
fn propagates_slice_payload_single_sample() {
    propagates_payloads((0..1).map(slice_payload).collect());
}

#[test]
fn propagates_slice_payload_two_samples() {
    propagates_payloads((0..2).map(slice_payload).collect());
}

#[test]
fn propagates_slice_payload_ten_samples() {
    propagates_payloads((0..10).map(slice_payload).collect());
}

#[test]
fn propagated_payloads_do_not_loop_back_from_zenoh() {
    let payload_data = "WhenItRegisters";

    let token = "test_tunnel_zenoh_3";
    let details = mock_details(token, "service_c");
    let id = details.service_id.clone();

    let mut tunnel_a = Tunnel::new(1);
    tunnel_a.initialize();
    tunnel_a.discover(&vec![details]);
    assert_eq!(tunnel_a.stream_ids().len(), 1);
    assert!(tunnel_a.stream_ids().contains(&String::from(token)));

    // Publish on host A and forward.
    let sent = payload_data.as_bytes().to_vec();
    let actions = tunnel_a.propagate(&vec![local_batch(&id, vec![sent])]);
    assert_eq!(actions.len(), 1);
    assert_eq!(actions[0].publishes.len(), 1);

    // The overlay hands A's own messages back to A's inbound stream.
    let echoed = StreamBatch {
        service_id: id.clone(),
        local_samples: Vec::new(),
        overlay_samples: actions[0].publishes.clone(),
    };
    let actions_again = tunnel_a.propagate(&vec![echoed]);
    assert_eq!(actions_again.len(), 1);
    if !actions_again[0].deliveries.is_empty() {
        panic!("sample looped back");
    }
}

#[test]
fn announces_service_details_on_zenoh() {
    let token = "test_tunnel_zenoh_4";
    let service_name = "service_d";
    let details = mock_details(token, service_name);
    let id = details.service_id.clone();

    let mut tunnel_a = Tunnel::new(1);
    tunnel_a.initialize();
    let setups = tunnel_a.discover(&vec![details]);
    assert_eq!(tunnel_a.stream_ids().len(), 1);
    assert!(tunnel_a.stream_ids().contains(&String::from(token)));
    assert_eq!(setups.len(), 1);

    // Query the announcer at the service's detail key.
    let reply = tunnel_a.respond(keys::service_details(&id).as_str());
    let reply = match reply {
        Some(text) => text,
        None => panic!("no reply to type details query"),
    };
    assert_eq!(reply, &setups[0].announcement);
    assert_eq!(keys::service_details(&id), setups[0].details_key);
    let decoded = match iox2_zenoh_tunnel::announce::decode(reply.as_str()) {
        Some(d) => d,
        None => panic!("error reading reply to type details query"),
    };
    assert!(decoded.service_id.matches(&id));
    assert_eq!(decoded.name, service_name);
    assert!(matches!(decoded.pattern, MessagingPattern::PublishSubscribe));
    assert!(matches!(decoded.payload.variant, TypeVariant::Dynamic));
    assert_eq!(decoded.payload.name, "u8");
    assert_eq!(decoded.payload.size, 1);
    assert_eq!(decoded.payload.alignment, 1);
    assert!(matches!(decoded.user_header.variant, TypeVariant::FixedSize));
    assert_eq!(decoded.user_header.name, "()");
    assert_eq!(decoded.user_header.size, 0);
    assert_eq!(decoded.user_header.alignment, 1);
}

#[test]
fn discover_is_idempotent() {
    let details = vec![
        mock_details("svc_one", "first"),
        mock_details("svc_two", "second"),
    ];
    let again = vec![
        mock_details("svc_one", "first"),
        mock_details("svc_two", "second"),
    ];

    let mut tunnel = Tunnel::new(7);
    let setups = tunnel.discover(&details);
    assert_eq!(setups.len(), 2);
    assert_eq!(tunnel.stream_ids().len(), 2);

    let setups_again = tunnel.discover(&again);
    assert_eq!(setups_again.len(), 0);
    assert_eq!(tunnel.stream_ids().len(), 2);
    assert_eq!(tunnel.stream_ids(), vec!["svc_one", "svc_two"]);
}

#[test]
fn discover_maps_a_duplicated_identifier_once() {
    let mut tunnel = Tunnel::new(4);
    let setups = tunnel.discover(&vec![
        mock_details("svc_dup", "first sighting"),
        mock_details("svc_dup", "second sighting"),
    ]);
    assert_eq!(setups.len(), 1);
    assert_eq!(setups[0].details.name, "first sighting");
    assert_eq!(tunnel.stream_ids(), vec!["svc_dup"]);
}

#[test]
fn discover_skips_other_messaging_patterns() {
    let mut event_details = mock_details("svc_event", "events");
    event_details.pattern = MessagingPattern::Event;
    let mut rr_details = mock_details("svc_rr", "calls");
    rr_details.pattern = MessagingPattern::RequestResponse;
    let ps_details = mock_details("svc_ps", "data");

    let mut tunnel = Tunnel::new(3);
    let setups = tunnel.discover(&vec![event_details, ps_details, rr_details]);
    assert_eq!(setups.len(), 1);
    assert_eq!(tunnel.stream_ids(), vec!["svc_ps"]);
}

#[test]
fn discover_derives_identical_setups_on_both_hosts() {
    let mut tunnel_a = Tunnel::new(1);
    let mut tunnel_b = Tunnel::new(2);

    let setups_a = tunnel_a.discover(&vec![mock_details("svc_shared", "shared")]);
    let setups_b = tunnel_b.discover(&vec![mock_details("svc_shared", "shared")]);

    assert_eq!(setups_a.len(), 1);
    assert_eq!(setups_b.len(), 1);
    assert_eq!(setups_a[0].data_key, setups_b[0].data_key);
    assert_eq!(setups_a[0].details_key, setups_b[0].details_key);
    assert_eq!(setups_a[0].announcement, setups_b[0].announcement);
    assert_eq!(tunnel_a.stream_ids(), tunnel_b.stream_ids());
}

#[test]
fn propagate_ignores_unregistered_services() {
    let tunnel = {
        let mut t = Tunnel::new(5);
        t.discover(&vec![mock_details("svc_known", "known")]);
        t
    };

    let unknown = mock_service_id("svc_unknown");
    let actions = tunnel.propagate(&vec![local_batch(&unknown, vec![vec![1, 2, 3]])]);
    assert_eq!(actions.len(), 0);

    let actions_empty = tunnel.propagate(&Vec::new());
    assert_eq!(actions_empty.len(), 0);
}

#[test]
fn propagate_preserves_order_within_a_stream() {
    let token = "svc_ordered";
    let details = mock_details(token, "ordered");
    let id = details.service_id.clone();

    let mut tunnel_a = Tunnel::new(1);
    let mut tunnel_b = Tunnel::new(2);
    tunnel_a.discover(&vec![mock_details(token, "ordered")]);
    tunnel_b.discover(&vec![details]);

    let samples: Vec<Vec<u8>> = (0u8..10).map(|i| vec![i, i + 1, i + 2]).collect();
    let actions_a = tunnel_a.propagate(&vec![local_batch(&id, samples.clone())]);
    assert_eq!(actions_a.len(), 1);
    assert_eq!(actions_a[0].publishes.len(), 10);

    let batch_b = StreamBatch {
        service_id: id.clone(),
        local_samples: Vec::new(),
        overlay_samples: actions_a[0].publishes.clone(),
    };
    let actions_b = tunnel_b.propagate(&vec![batch_b]);
    assert_eq!(actions_b.len(), 1);
    assert_eq!(actions_b[0].deliveries, samples);
}

#[test]
fn respond_answers_only_registered_keys() {
    let mut tunnel = Tunnel::new(9);
    tunnel.discover(&vec![mock_details("svc_answering", "answering")]);

    let id = mock_service_id("svc_answering");
    assert!(tunnel.respond(keys::service_details(&id).as_str()).is_some());

    let other = mock_service_id("svc_other");
    assert!(tunnel.respond(keys::service_details(&other).as_str()).is_none());
    assert!(tunnel.respond(keys::publish_subscribe(&id).as_str()).is_none());
}
