use std::cell::Cell;

use socket_harness::error::{EndpointError, EndpointKind};
use socket_harness::registry::Registry;
use socket_harness::{tcp_client, tcp_server, udp_client, udp_server};

#[test]
fn second_start_on_live_key_is_rejected() {
    let mut reg: Registry<u32> = Registry::new();
    let opened = Cell::new(0u32);
    let r1 = udp_server::start(&mut reg, "127.0.0.1:9001".to_string(), |_k: &String| {
        opened.set(opened.get() + 1);
        Ok(7u32)
    });
    assert_eq!(r1, Ok(()));
    let r2 = udp_server::start(&mut reg, "127.0.0.1:9001".to_string(), |_k: &String| {
        opened.set(opened.get() + 1);
        Ok(8u32)
    });
    assert_eq!(r2, Err(EndpointError::AlreadyRunning(EndpointKind::UdpServer)));
    assert_eq!(opened.get(), 1);
    assert_eq!(reg.len(), 1);
    assert_eq!(reg.get(&"127.0.0.1:9001".to_string()), Some(&7u32));
}

#[test]
fn distinct_keys_coexist() {
    let mut reg: Registry<u32> = Registry::new();
    assert_eq!(udp_client::start(&mut reg, "127.0.0.1:9002".to_string(), |_k: &String| Ok(1u32)), Ok(()));
    assert_eq!(udp_client::start(&mut reg, "127.0.0.1:9003".to_string(), |_k: &String| Ok(2u32)), Ok(()));
    assert_eq!(reg.keys(), vec!["127.0.0.1:9002".to_string(), "127.0.0.1:9003".to_string()]);
}

#[test]
fn failed_bind_registers_nothing() {
    let mut reg: Registry<u32> = Registry::new();
    let r = tcp_server::start(&mut reg, "127.0.0.1:1".to_string(), |k: &String| {
        Err(EndpointError::Bind(format!("cannot bind {}", k)))
    });
    assert_eq!(r, Err(EndpointError::Bind("cannot bind 127.0.0.1:1".to_string())));
    assert_eq!(reg.len(), 0);
    assert!(!reg.contains_key(&"127.0.0.1:1".to_string()));
}

#[test]
fn failed_connect_registers_nothing() {
    let mut reg: Registry<u32> = Registry::new();
    let r = tcp_client::start(&mut reg, "127.0.0.1:9".to_string(), |_k: &String| {
        Err(EndpointError::Connect("refused".to_string()))
    });
    assert_eq!(r, Err(EndpointError::Connect("refused".to_string())));
    assert_eq!(reg.len(), 0);
}

#[test]
fn stop_twice_reports_not_running() {
    let mut reg: Registry<u32> = Registry::new();
    tcp_server::start(&mut reg, "127.0.0.1:9101".to_string(), |_k: &String| Ok(5u32)).unwrap();
    let first = tcp_server::stop(&mut reg, Some("127.0.0.1:9101".to_string()));
    assert_eq!(first, Ok(vec![5u32]));
    let second = tcp_server::stop(&mut reg, Some("127.0.0.1:9101".to_string()));
    assert_eq!(second, Err(EndpointError::NotRunning(EndpointKind::TcpServer)));
    assert_eq!(reg.len(), 0);
}

#[test]
fn stop_unknown_key_reports_not_running() {
    let mut reg: Registry<u32> = Registry::new();
    tcp_client::start(&mut reg, "10.0.0.1:80".to_string(), |_k: &String| Ok(1u32)).unwrap();
    let r = tcp_client::stop(&mut reg, Some("10.0.0.2:80".to_string()));
    assert_eq!(r, Err(EndpointError::NotRunning(EndpointKind::TcpClient)));
    assert_eq!(reg.len(), 1);
}

#[test]
fn stop_all_on_empty_registry_succeeds() {
    let mut reg: Registry<u32> = Registry::new();
    assert_eq!(udp_client::stop(&mut reg, None), Ok(Vec::<u32>::new()));
}

#[test]
fn stop_all_hands_back_every_handle_in_order() {
    let mut reg: Registry<u32> = Registry::new();
    udp_server::start(&mut reg, "a:1".to_string(), |_k: &String| Ok(1u32)).unwrap();
    udp_server::start(&mut reg, "b:2".to_string(), |_k: &String| Ok(2u32)).unwrap();
    udp_server::start(&mut reg, "c:3".to_string(), |_k: &String| Ok(3u32)).unwrap();
    assert_eq!(udp_server::stop(&mut reg, None), Ok(vec![1u32, 2, 3]));
    assert_eq!(reg.len(), 0);
    assert_eq!(
        udp_server::stop(&mut reg, Some("a:1".to_string())),
        Err(EndpointError::NotRunning(EndpointKind::UdpServer))
    );
}

#[test]
fn restart_after_stop_is_allowed() {
    let mut reg: Registry<u32> = Registry::new();
    udp_client::start(&mut reg, "127.0.0.1:9002".to_string(), |_k: &String| Ok(1u32)).unwrap();
    udp_client::stop(&mut reg, Some("127.0.0.1:9002".to_string())).unwrap();
    assert_eq!(udp_client::start(&mut reg, "127.0.0.1:9002".to_string(), |_k: &String| Ok(2u32)), Ok(()));
    assert_eq!(reg.get(&"127.0.0.1:9002".to_string()), Some(&2u32));
}

#[test]
fn insert_replaces_stale_entry() {
    let mut reg: Registry<u32> = Registry::new();
    assert_eq!(reg.insert("p:1".to_string(), 1), None);
    assert_eq!(reg.insert("p:2".to_string(), 2), None);
    assert_eq!(reg.insert("p:1".to_string(), 3), Some(1));
    assert_eq!(reg.len(), 2);
    assert_eq!(reg.get(&"p:1".to_string()), Some(&3u32));
    assert_eq!(reg.remove(&"p:2".to_string()), Some(2));
    assert_eq!(reg.remove(&"p:2".to_string()), None);
    assert_eq!(reg.find(&"p:1".to_string()), Some(0));
}
