use udp_tunnel_mux::addr::Addr;
use udp_tunnel_mux::client::{client_route, ClientVerdict, MapsClient, SocketHandle};
use udp_tunnel_mux::frame::{decode, encode, FrameError, MAX_PAYLOAD_LEN};
use udp_tunnel_mux::id_gen::IncrementalIdGeneratorAtomic;
use udp_tunnel_mux::server::{
    server_handle_tunnel, server_handle_udp, MapsServer, TunnelVerdict,
};

fn addr(last_octet: u8, port: u16) -> Addr {
    Addr { is_v6: false, ip: 0x7f000000u128 + last_octet as u128, port }
}

#[test]
fn encode_writes_little_endian_header() {
    let payload = vec![b'p', b'i', b'n', b'g'];
    let framed = encode(0x1234, &payload).unwrap();
    assert_eq!(framed, vec![0x34, 0x12, b'p', b'i', b'n', b'g']);
}

#[test]
fn round_trip_restores_id_and_payload() {
    let payload = vec![1u8, 2, 3, 250, 255, 0];
    for id in [0u16, 1, 255, 256, 0x1234, u16::MAX] {
        let framed = encode(id, &payload).unwrap();
        let (got_id, got_payload) = decode(&framed).unwrap();
        assert_eq!(got_id, id);
        assert_eq!(got_payload, payload);
    }
}

#[test]
fn round_trip_empty_payload() {
    let framed = encode(7, &Vec::new()).unwrap();
    assert_eq!(framed, vec![7, 0]);
    let (id, payload) = decode(&framed).unwrap();
    assert_eq!(id, 7);
    assert!(payload.is_empty());
}

#[test]
fn round_trip_largest_payload() {
    let payload = vec![0xabu8; MAX_PAYLOAD_LEN];
    let framed = encode(65535, &payload).unwrap();
    assert_eq!(framed.len(), MAX_PAYLOAD_LEN + 2);
    let (id, got) = decode(&framed).unwrap();
    assert_eq!(id, 65535);
    assert_eq!(got, payload);
}

#[test]
fn oversized_payload_is_refused() {
    let payload = vec![0u8; MAX_PAYLOAD_LEN + 1];
    assert_eq!(encode(0, &payload), Err(FrameError::DatagramTooLarge));
}

#[test]
fn short_datagrams_are_malformed() {
    assert_eq!(decode(&Vec::new()), Err(FrameError::MalformedDatagram));
    assert_eq!(decode(&vec![9u8]), Err(FrameError::MalformedDatagram));
}

#[test]
fn id_generator_counts_up_from_zero() {
    let mut gen = IncrementalIdGeneratorAtomic::new();
    assert_eq!(gen.next(), 0);
    assert_eq!(gen.next(), 1);
    assert_eq!(gen.next(), 2);
}

#[test]
fn ids_assigned_in_first_seen_order() {
    let mut maps = MapsServer::new();
    let a = addr(1, 5000);
    let b = addr(2, 5000);
    let c = addr(1, 5001);
    assert_eq!(maps.get_id(&a), 0);
    assert_eq!(maps.get_id(&b), 1);
    assert_eq!(maps.get_id(&a), 0);
    assert_eq!(maps.get_id(&c), 2);
    assert_eq!(maps.get_id(&b), 1);
    assert_eq!(maps.get_addr(0), Some(a));
    assert_eq!(maps.get_addr(1), Some(b));
    assert_eq!(maps.get_addr(2), Some(c));
    assert_eq!(maps.get_addr(3), None);
}

#[test]
fn server_tags_repeated_source_with_same_id() {
    let mut maps = MapsServer::new();
    let p = addr(9, 34567);
    let first = server_handle_udp(&mut maps, &p, &vec![b'p', b'i', b'n', b'g']).unwrap();
    assert_eq!(first, vec![0, 0, b'p', b'i', b'n', b'g']);
    let second = server_handle_udp(&mut maps, &p, &vec![b'!']).unwrap();
    assert_eq!(second, vec![0, 0, b'!']);
}

#[test]
fn server_drops_short_tunnel_datagrams_and_keeps_pumping() {
    let mut maps = MapsServer::new();
    let p = addr(3, 1234);
    server_handle_udp(&mut maps, &p, &vec![1u8]).unwrap();
    assert!(matches!(server_handle_tunnel(&maps, &Vec::new()), TunnelVerdict::Malformed));
    assert!(matches!(server_handle_tunnel(&maps, &vec![0u8]), TunnelVerdict::Malformed));
    // The flow registered before the malformed datagrams is still served.
    match server_handle_tunnel(&maps, &vec![0u8, 0, 42]) {
        TunnelVerdict::Deliver { id, addr: to, payload } => {
            assert_eq!(id, 0);
            assert_eq!(to, p);
            assert_eq!(payload, vec![42u8]);
        }
        _ => panic!("expected delivery to the registered flow"),
    }
}

#[test]
fn server_drops_unknown_flow_id_without_sending() {
    let mut maps = MapsServer::new();
    let p = addr(4, 4444);
    server_handle_udp(&mut maps, &p, &vec![7u8]).unwrap();
    match server_handle_tunnel(&maps, &vec![5u8, 0, 1, 2]) {
        TunnelVerdict::UnknownFlow { id } => assert_eq!(id, 5),
        _ => panic!("expected the stray datagram to be dropped"),
    }
}

#[test]
fn client_creates_flow_once_then_reuses_socket() {
    let mut maps = MapsClient::new();
    let datagram = vec![5u8, 0, b'h', b'i'];
    // First datagram for id 5: a new flow is requested.
    match client_route(&maps, &datagram) {
        ClientVerdict::NewFlow { id, payload } => {
            assert_eq!(id, 5);
            assert_eq!(payload, vec![b'h', b'i']);
        }
        _ => panic!("expected a new flow for an unknown id"),
    }
    let handle = SocketHandle { index: 11 };
    maps.set_socket(5, handle);
    assert_eq!(maps.get_socket(5), Some(handle));
    // Every later datagram for id 5 reuses the registered socket.
    for _ in 0..3 {
        match client_route(&maps, &datagram) {
            ClientVerdict::Forward { id, socket, payload } => {
                assert_eq!(id, 5);
                assert_eq!(socket, handle);
                assert_eq!(payload, vec![b'h', b'i']);
            }
            _ => panic!("a registered id must never create a second socket"),
        }
    }
    assert_eq!(maps.get_socket(5), Some(handle));
}

#[test]
fn client_flows_never_cross() {
    let mut maps = MapsClient::new();
    let h0 = SocketHandle { index: 100 };
    let h1 = SocketHandle { index: 101 };
    maps.set_socket(0, h0);
    maps.set_socket(1, h1);
    let for_zero = vec![0u8, 0, b'a'];
    let for_one = vec![1u8, 0, b'b'];
    match client_route(&maps, &for_zero) {
        ClientVerdict::Forward { socket, payload, .. } => {
            assert_eq!(socket, h0);
            assert_ne!(socket, h1);
            assert_eq!(payload, vec![b'a']);
        }
        _ => panic!("expected a forward on flow 0"),
    }
    match client_route(&maps, &for_one) {
        ClientVerdict::Forward { socket, payload, .. } => {
            assert_eq!(socket, h1);
            assert_ne!(socket, h0);
            assert_eq!(payload, vec![b'b']);
        }
        _ => panic!("expected a forward on flow 1"),
    }
    assert!(matches!(client_route(&maps, &vec![0u8]), ClientVerdict::Malformed));
}

#[test]
fn reconnect_starts_from_a_fresh_registry() {
    let p = addr(8, 8080);
    let q = addr(9, 9090);
    let mut first_conn = MapsServer::new();
    assert_eq!(first_conn.get_id(&p), 0);
    assert_eq!(first_conn.get_id(&q), 1);
    // The connection drops; the supervisor accepts a new one with a fresh
    // registry that remembers nothing.
    let mut second_conn = MapsServer::new();
    assert_eq!(second_conn.get_addr(0), None);
    assert_eq!(second_conn.get_addr(1), None);
    assert_eq!(second_conn.get_id(&q), 0);
    assert_eq!(second_conn.get_id(&p), 1);
}

#[test]
fn mapped_ipv6_address_is_a_distinct_flow() {
    let mut maps = MapsServer::new();
    let v4 = Addr { is_v6: false, ip: 0xc0000201, port: 7000 };
    let mapped_v6 = Addr { is_v6: true, ip: 0xffff_c0000201, port: 7000 };
    assert_eq!(maps.get_id(&v4), 0);
    assert_eq!(maps.get_id(&mapped_v6), 1);
    assert_eq!(maps.get_addr(0), Some(v4));
    assert_eq!(maps.get_addr(1), Some(mapped_v6));
}

#[test]
fn client_registry_starts_empty() {
    let maps = MapsClient::new();
    assert_eq!(maps.get_socket(0), None);
    assert_eq!(maps.get_socket(65535), None);
}
