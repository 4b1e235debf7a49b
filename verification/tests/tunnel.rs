use barp_tunnel::bridge::{server_step, tun_step, ServerStep, TunStep, TUN_BUFFER};
use barp_tunnel::packet::MessageError;
use barp_tunnel::proxy::{set_proxy, ProxyConfig, Target, TargetError};
use barp_tunnel::state::{is_connected, set_connected, Connection, Dial, NoSocket, TunnelState};

type State = TunnelState<&'static str, u8, u16, u32, u64>;

fn connection() -> Connection<&'static str, u8, u16, u32> {
    Connection {
        session: "session",
        ipv4: [10, 0, 0, 2],
        ipv6: [1; 16],
        write_tx: 1,
        transport_reader: 2,
        tcp_reader: 3,
        route: "direct".to_string(),
    }
}

#[test]
fn new_state_is_idle() {
    let mut s: State = TunnelState::new();
    assert!(!is_connected(&s));
    assert_eq!(s.proxy_status(), None);
    assert_eq!(s.assigned_ipv4, None);
    assert_eq!(s.take_prepared(), None);
    assert_eq!(s.start_bridge(), None);
}

#[test]
fn prepared_socket() {
    let mut s: State = TunnelState::new();
    assert_eq!(s.prepare_socket(-1), Err(NoSocket));
    assert_eq!(s.take_prepared(), None);
    assert_eq!(s.prepare_socket(0), Ok(0));
    assert_eq!(s.take_prepared(), Some(0));
    assert_eq!(s.take_prepared(), None);
}

#[test]
fn connections_use_the_prepared_socket_once() {
    let mut s: State = TunnelState::new();
    let config = ProxyConfig::new();
    let server = Target { ip: [5, 188, 183, 132], port: 20443 };
    s.prepare_socket(7).unwrap();
    match s.plan_connection(&config).ok() {
        Some(Dial::Prepared { fd, target }) => {
            assert_eq!(fd, 7);
            assert_eq!(target, server);
        }
        _ => panic!("the socket was not used"),
    }
    match s.plan_connection(&config).ok() {
        Some(Dial::Fresh { target }) => assert_eq!(target, server),
        _ => panic!("the socket was used again"),
    }
}

#[test]
fn bad_settings_keep_the_socket() {
    let mut s: State = TunnelState::new();
    let mut config = ProxyConfig::new();
    set_proxy(&mut config, Some("x".to_string()), Some("s".to_string()));
    s.prepare_socket(7).unwrap();
    assert_eq!(s.plan_connection(&config).err(), Some(TargetError::NoPort));
    assert_eq!(s.take_prepared(), Some(7));
}

#[test]
fn established_connection() {
    let mut s: State = TunnelState::new();
    s.establish(connection());
    assert!(is_connected(&s));
    assert_eq!(s.assigned_ipv4, Some([10, 0, 0, 2]));
    assert_eq!(s.assigned_ipv6, Some([1; 16]));
    assert_eq!(s.proxy_status(), Some("direct".to_string()));
}

#[test]
fn no_status_without_a_connection() {
    let mut s: State = TunnelState::new();
    s.establish(connection());
    set_connected(&mut s, false);
    assert!(!is_connected(&s));
    assert_eq!(s.proxy_status(), None);
}

#[test]
fn bridge_starts_exactly_once() {
    let mut s: State = TunnelState::new();
    s.establish(connection());
    assert_eq!(s.start_bridge(), Some((2, 3)));
    assert_eq!(s.session, Some("session"));
    assert_eq!(s.write_tx, Some(1));
    assert_eq!(s.start_bridge(), None);
}

#[test]
fn bridge_without_a_session_loses_the_readers() {
    let mut s: State = TunnelState::new();
    s.establish(connection());
    s.session = None;
    assert_eq!(s.start_bridge(), None);
    assert_eq!(s.transport_reader, None);
    assert_eq!(s.tcp_reader, None);
}

#[test]
fn new_bridge_replaces_the_old() {
    let mut s: State = TunnelState::new();
    assert_eq!(s.bridge_started(1), None);
    assert_eq!(s.bridge_started(2), Some(1));
}

#[test]
fn disconnecting_lets_go_of_everything() {
    let mut s: State = TunnelState::new();
    s.establish(connection());
    s.prepare_socket(9).unwrap();
    s.bridge_started(5);
    assert_eq!(s.disconnect(), (Some(5), Some(9)));
    assert!(!is_connected(&s));
    assert_eq!(s.session, None);
    assert_eq!(s.assigned_ipv4, None);
    assert_eq!(s.assigned_ipv6, None);
    assert_eq!(s.write_tx, None);
    assert_eq!(s.active_route, None);
    assert_eq!(s.disconnect(), (None, None));
}

#[test]
fn server_packets() {
    let none: Result<Option<Vec<u8>>, MessageError> = Ok(None);
    assert!(matches!(server_step(none), ServerStep::PassOver));
    let packet: Result<Option<Vec<u8>>, MessageError> = Ok(Some(vec![1, 2]));
    match server_step(packet) {
        ServerStep::Write(p) => assert_eq!(p, vec![1, 2]),
        other => panic!("{:?}", other),
    }
    match server_step(Err(MessageError::SizeMismatch)) {
        ServerStep::Stop(e) => assert_eq!(e, MessageError::SizeMismatch),
        other => panic!("{:?}", other),
    }
}

#[test]
fn device_reads() {
    let buf = [1, 2, 3, 4];
    assert!(matches!(tun_step(None, &buf), TunStep::Stop));
    assert!(matches!(tun_step(Some(0), &buf), TunStep::Stop));
    match tun_step(Some(3), &buf) {
        TunStep::Forward(packet) => assert_eq!(packet, vec![1, 2, 3]),
        TunStep::Stop => panic!("stopped"),
    }
    assert_eq!(TUN_BUFFER, 8192);
}
