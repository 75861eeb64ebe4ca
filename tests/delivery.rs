use std::cell::RefCell;

use socket_harness::error::{EndpointError, EndpointKind};
use socket_harness::payload::{decode_payload, encode_payload};
use socket_harness::registry::Registry;
use socket_harness::worker::{
    hash_datagram, next_seq, DatagramStep, PeerStep, ReadStatus, StreamStep, TcpClientReader,
    TcpServerReader, UdpReceiver,
};
use socket_harness::{tcp_client, tcp_server, udp_client, udp_server};

fn peers3() -> Registry<u32> {
    let mut peers: Registry<u32> = Registry::new();
    peers.insert("127.0.0.1:50001".to_string(), 1);
    peers.insert("127.0.0.1:50002".to_string(), 2);
    peers.insert("127.0.0.1:50003".to_string(), 3);
    peers
}

#[test]
fn udp_server_reports_ping_from_client() {
    let mut rx = UdpReceiver::new();
    let ev = rx.on_datagram("127.0.0.1:9002", b"ping", 1_000, 1_700_000_000_000);
    assert_eq!(ev.from, "127.0.0.1:9002");
    assert_eq!(ev.data, "cGluZw==");
    assert_eq!(ev.seq, 1);
    assert_eq!(ev.ts_ms, 1_700_000_000_000);
    assert!(!ev.dup);
}

#[test]
fn sequence_numbers_increase_by_one() {
    let mut rx = UdpReceiver::new();
    for expected in 1u64..=5 {
        let ev = rx.on_datagram("h:1", &[expected as u8], expected * 1_000_000_000, 0);
        assert_eq!(ev.seq, expected);
    }
    assert_eq!(next_seq(41), 42);
    assert_eq!(next_seq(u64::MAX), 0);
}

#[test]
fn duplicate_within_window_is_flagged() {
    let mut rx = UdpReceiver::new();
    let a = rx.on_datagram("10.0.0.1:5000", b"same", 0, 0);
    let b = rx.on_datagram("10.0.0.1:5000", b"same", 49_999_999, 0);
    assert!(!a.dup);
    assert!(b.dup);
    assert_eq!(b.seq, 2);
}

#[test]
fn duplicate_outside_window_is_not_flagged() {
    let mut rx = UdpReceiver::new();
    rx.on_datagram("10.0.0.1:5000", b"same", 0, 0);
    let b = rx.on_datagram("10.0.0.1:5000", b"same", 50_000_000, 0);
    assert!(!b.dup);
}

#[test]
fn duplicate_needs_same_source_and_bytes() {
    let mut rx = UdpReceiver::new();
    rx.on_datagram("10.0.0.1:5000", b"same", 0, 0);
    let other_src = rx.on_datagram("10.0.0.2:5000", b"same", 1_000, 0);
    assert!(!other_src.dup);
    let other_bytes = rx.on_datagram("10.0.0.2:5000", b"sane", 2_000, 0);
    assert!(!other_bytes.dup);
    let back = rx.on_datagram("10.0.0.1:5000", b"same", 3_000, 0);
    assert!(!back.dup);
    let repeat = rx.on_datagram("10.0.0.1:5000", b"same", 4_000, 0);
    assert!(repeat.dup);
}

#[test]
fn datagram_hash_tells_sources_apart() {
    assert_ne!(hash_datagram("a:1", b"x"), hash_datagram("a:2", b"x"));
    assert_ne!(hash_datagram("a:1", b"x"), hash_datagram("a:1", b"y"));
    assert_eq!(hash_datagram("a:1", b"x"), hash_datagram("a:1", b"x"));
}

#[test]
fn udp_recv_statuses() {
    let mut rx = UdpReceiver::new();
    assert_eq!(rx.on_recv(ReadStatus::WouldBlock, "", b"", 0, 0), DatagramStep::Idle);
    assert_eq!(rx.on_recv(ReadStatus::Failed, "", b"", 0, 0), DatagramStep::ReportError);
    match rx.on_recv(ReadStatus::Ready, "h:1", b"", 0, 5) {
        DatagramStep::Deliver(ev) => {
            assert_eq!(ev.seq, 1);
            assert_eq!(ev.data, "");
        }
        other => panic!("unexpected {:?}", other),
    }
}

#[test]
fn payload_round_trip_is_exact() {
    let mut bytes: Vec<u8> = Vec::new();
    let mut x: u32 = 12345;
    for _ in 0..1000 {
        x = x.wrapping_mul(1103515245).wrapping_add(12345);
        bytes.push((x >> 16) as u8);
    }
    let text = encode_payload(&bytes);
    assert_ne!(text.as_bytes(), &bytes[..]);
    assert_eq!(decode_payload(&text), Ok(bytes));
}

#[test]
fn encode_payload_is_standard_base64() {
    assert_eq!(encode_payload(b"hi"), "aGk=");
    assert_eq!(encode_payload(b""), "");
    assert_eq!(decode_payload(&"aGk=".to_string()), Ok(b"hi".to_vec()));
}

#[test]
fn malformed_base64_is_an_encoding_error() {
    assert!(matches!(decode_payload(&"not base64!".to_string()), Err(EndpointError::Encoding(_))));
}

#[test]
fn broadcast_drops_exactly_the_failing_peers() {
    let mut peers = peers3();
    let sent = tcp_server::broadcast(&mut peers, b"hi", &|s: &u32, _b: &[u8]| {
        if *s == 2 { Err("broken pipe".to_string()) } else { Ok(()) }
    });
    assert_eq!(sent, 2);
    assert_eq!(peers.keys(), vec!["127.0.0.1:50001".to_string(), "127.0.0.1:50003".to_string()]);
}

#[test]
fn broadcast_to_two_peers_reaches_both() {
    let mut peers: Registry<u32> = Registry::new();
    let reader = TcpServerReader::new();
    reader.on_accept(&mut peers, "127.0.0.1:40001".to_string(), 1);
    reader.on_accept(&mut peers, "127.0.0.1:40002".to_string(), 2);
    assert_ne!(peers.key_at(0), peers.key_at(1));
    let seen: RefCell<Vec<(u32, Vec<u8>)>> = RefCell::new(Vec::new());
    let r = tcp_server::send(&mut peers, None, &"aGk=".to_string(), &|s: &u32, b: &[u8]| {
        seen.borrow_mut().push((*s, b.to_vec()));
        Ok(())
    });
    assert_eq!(r, Ok(2));
    assert_eq!(seen.into_inner(), vec![(1u32, b"hi".to_vec()), (2u32, b"hi".to_vec())]);
    assert_eq!(peers.len(), 2);
}

#[test]
fn send_to_unknown_peer_fails() {
    let mut peers = peers3();
    let r = tcp_server::send(&mut peers, Some("127.0.0.1:1".to_string()), &"aGk=".to_string(), &|_s: &u32, _b: &[u8]| Ok(()));
    assert_eq!(r, Err(EndpointError::PeerNotFound));
}

#[test]
fn failed_write_to_named_peer_keeps_peer() {
    let mut peers = peers3();
    let r = tcp_server::send(&mut peers, Some("127.0.0.1:50002".to_string()), &"aGk=".to_string(), &|_s: &u32, _b: &[u8]| {
        Err("reset".to_string())
    });
    assert_eq!(r, Err(EndpointError::Write("reset".to_string())));
    assert_eq!(peers.len(), 3);
    let ok = tcp_server::send(&mut peers, Some("127.0.0.1:50002".to_string()), &"aGk=".to_string(), &|s: &u32, _b: &[u8]| {
        assert_eq!(*s, 2);
        Ok(())
    });
    assert_eq!(ok, Ok(1));
}

#[test]
fn server_send_with_bad_payload_changes_nothing() {
    let mut peers = peers3();
    let r = tcp_server::send(&mut peers, None, &"@@@".to_string(), &|_s: &u32, _b: &[u8]| Err("x".to_string()));
    assert!(matches!(r, Err(EndpointError::Encoding(_))));
    assert_eq!(peers.len(), 3);
}

#[test]
fn tcp_client_send_paths() {
    let mut clients: Registry<u32> = Registry::new();
    let missing = tcp_client::send(&clients, &"127.0.0.1:7000".to_string(), &"aGk=".to_string(), |_s: &u32, _b: &[u8]| Ok(()));
    assert_eq!(missing, Err(EndpointError::NotRunning(EndpointKind::TcpClient)));
    tcp_client::start(&mut clients, "127.0.0.1:7000".to_string(), |_k: &String| Ok(9u32)).unwrap();
    let ok = tcp_client::send(&clients, &"127.0.0.1:7000".to_string(), &"aGVsbG8=".to_string(), |s: &u32, b: &[u8]| {
        assert_eq!(*s, 9);
        assert_eq!(b, b"hello");
        Ok(())
    });
    assert_eq!(ok, Ok(5));
    let failed = tcp_client::send(&clients, &"127.0.0.1:7000".to_string(), &"aGk=".to_string(), |_s: &u32, _b: &[u8]| Err("broken".to_string()));
    assert_eq!(failed, Err(EndpointError::Write("broken".to_string())));
    assert_eq!(clients.len(), 1);
}

#[test]
fn udp_send_from_prefers_registered_socket() {
    let mut socks: Registry<u32> = Registry::new();
    udp_client::start(&mut socks, "127.0.0.1:9002".to_string(), |_k: &String| Ok(4u32)).unwrap();
    let r = udp_client::send_from(
        &socks,
        &"127.0.0.1:9002".to_string(),
        &"127.0.0.1:9001".to_string(),
        &"cGluZw==".to_string(),
        |s: &u32, b: &[u8], to: &String| {
            assert_eq!(*s, 4);
            assert_eq!(to, "127.0.0.1:9001");
            Ok(b.len())
        },
        |_bind: &String, _b: &[u8], _to: &String| Err(EndpointError::Bind("unused".to_string())),
    );
    assert_eq!(r, Ok(4));
}

#[test]
fn udp_send_from_falls_back_to_ephemeral_socket() {
    let socks: Registry<u32> = Registry::new();
    let r = udp_server::send_from(
        &socks,
        &"127.0.0.1:9005".to_string(),
        &"127.0.0.1:9001".to_string(),
        &"cGluZw==".to_string(),
        |_s: &u32, _b: &[u8], _to: &String| Err("unused".to_string()),
        |bind: &String, b: &[u8], _to: &String| {
            assert_eq!(bind, "127.0.0.1:9005");
            assert_eq!(b, b"ping");
            Ok(b.len())
        },
    );
    assert_eq!(r, Ok(4));
    let err = udp_client::send_from(
        &socks,
        &"127.0.0.1:9005".to_string(),
        &"127.0.0.1:9001".to_string(),
        &"cGluZw==".to_string(),
        |_s: &u32, _b: &[u8], _to: &String| Ok(0),
        |_bind: &String, _b: &[u8], _to: &String| Err(EndpointError::Bind("in use".to_string())),
    );
    assert_eq!(err, Err(EndpointError::Bind("in use".to_string())));
}

#[test]
fn tcp_client_reader_steps() {
    let mut rd = TcpClientReader::new();
    assert_eq!(rd.on_read(ReadStatus::WouldBlock, b"", 0), StreamStep::Idle);
    match rd.on_read(ReadStatus::Ready, b"hi", 7) {
        StreamStep::Deliver(ev) => {
            assert_eq!(ev.seq, 1);
            assert_eq!(ev.data, "aGk=");
            assert_eq!(ev.ts_ms, 7);
        }
        other => panic!("unexpected {:?}", other),
    }
    assert!(rd.is_reading());
    assert_eq!(rd.on_read(ReadStatus::Ready, b"", 8), StreamStep::Closed);
    assert!(!rd.is_reading());
    let mut rd2 = TcpClientReader::new();
    assert_eq!(rd2.on_read(ReadStatus::Failed, b"", 0), StreamStep::Failed);
    assert!(!rd2.is_reading());
}

#[test]
fn tcp_server_reader_drops_closed_peer() {
    let mut peers = peers3();
    let mut rd = TcpServerReader::new();
    let key = "127.0.0.1:50002".to_string();
    assert_eq!(rd.on_peer_read(&mut peers, &key, ReadStatus::WouldBlock, b"", 0), PeerStep::Idle);
    match rd.on_peer_read(&mut peers, &key, ReadStatus::Ready, b"abc", 3) {
        PeerStep::Deliver(ev) => {
            assert_eq!(ev.seq, 1);
            assert_eq!(ev.data, "YWJj");
        }
        other => panic!("unexpected {:?}", other),
    }
    assert_eq!(rd.on_peer_read(&mut peers, &key, ReadStatus::Ready, b"", 4), PeerStep::Disconnected);
    assert!(!peers.contains_key(&key));
    let other = "127.0.0.1:50003".to_string();
    assert_eq!(rd.on_peer_read(&mut peers, &other, ReadStatus::Failed, b"", 5), PeerStep::Disconnected);
    assert_eq!(peers.keys(), vec!["127.0.0.1:50001".to_string()]);
}

#[test]
fn stopping_server_with_peers_then_stopping_again() {
    let mut servers: Registry<Registry<u32>> = Registry::new();
    tcp_server::start(&mut servers, "127.0.0.1:9101".to_string(), |_k: &String| Ok(peers3())).unwrap();
    let stopped = tcp_server::stop(&mut servers, Some("127.0.0.1:9101".to_string())).unwrap();
    assert_eq!(stopped.len(), 1);
    assert_eq!(stopped[0].len(), 3);
    assert!(matches!(
        tcp_server::stop(&mut servers, Some("127.0.0.1:9101".to_string())),
        Err(EndpointError::NotRunning(EndpointKind::TcpServer))
    ));
}
