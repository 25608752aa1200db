use db_observer::config::Config;
use db_observer::frame::{EthLayer, IpLayer, TcpLayer, TCP_ACK, TCP_FIN, TCP_PSH};
use db_observer::session::{
    classify, Event, Session, SessionCtx, SessionKey, SessionManager, SessionPacket, SessionState,
};
use db_observer::DBType;

fn test_config() -> Config {
    Config {
        bpf: "tcp and port 3306".to_string(),
        device: "eth0".to_string(),
        support_db: vec![(3306, DBType::MySQL)],
    }
}

/// A synthetic Ethernet/IPv4/TCP frame.
fn raw_frame(
    src_mac: [u8; 6],
    dst_mac: [u8; 6],
    src_ip: [u8; 4],
    dst_ip: [u8; 4],
    src_port: u16,
    dst_port: u16,
    flags: u8,
    payload: &[u8],
) -> Vec<u8> {
    let mut f = Vec::new();
    f.extend_from_slice(&dst_mac);
    f.extend_from_slice(&src_mac);
    f.extend_from_slice(&[0x08, 0x00]);
    // IPv4 header, 20 bytes, no options.
    let total = (20 + 20 + payload.len()) as u16;
    let mut ip = vec![0u8; 20];
    ip[0] = 0x45;
    ip[2] = (total >> 8) as u8;
    ip[3] = (total & 0xFF) as u8;
    ip[9] = 6;
    ip[12..16].copy_from_slice(&src_ip);
    ip[16..20].copy_from_slice(&dst_ip);
    f.extend_from_slice(&ip);
    // TCP header, 20 bytes, no options.
    let mut tcp = vec![0u8; 20];
    tcp[0] = (src_port >> 8) as u8;
    tcp[1] = (src_port & 0xFF) as u8;
    tcp[2] = (dst_port >> 8) as u8;
    tcp[3] = (dst_port & 0xFF) as u8;
    tcp[12] = 5 << 4;
    tcp[13] = flags;
    f.extend_from_slice(&tcp);
    f.extend_from_slice(payload);
    f
}

const CLIENT_MAC: [u8; 6] = [0x06, 0x07, 0x08, 0x09, 0x0a, 0x0b];
const SERVER_MAC: [u8; 6] = [0x00, 0x01, 0x02, 0x03, 0x04, 0x05];
const CLIENT_IP: [u8; 4] = [192, 168, 1, 10];
const SERVER_IP: [u8; 4] = [192, 168, 1, 20];

fn query_payload(seq: u8) -> Vec<u8> {
    // MySQL frame: length 6, the given seq, then COM_QUERY "hello".
    let mut p = vec![6, 0, 0, seq, 0x03];
    p.extend_from_slice(b"hello");
    p
}

// Key canonicalization: a client packet and the matching server packet
// produce identical session keys.
#[test]
fn key_canonicalization_round_trip() {
    let cfg = test_config();
    let fwd = raw_frame(CLIENT_MAC, SERVER_MAC, CLIENT_IP, SERVER_IP, 5555, 3306,
        TCP_PSH | TCP_ACK, &query_payload(0));
    let rev = raw_frame(SERVER_MAC, CLIENT_MAC, SERVER_IP, CLIENT_IP, 3306, 5555,
        TCP_PSH | TCP_ACK, &[7, 0, 0, 1, 0x00, 0, 0, 0, 2, 0, 0]);
    let p1 = SessionPacket::new(&cfg, fwd).unwrap();
    let p2 = SessionPacket::new(&cfg, rev).unwrap();
    assert!(p1.request);
    assert!(!p2.request);
    assert!(p1.session_key.key_eq(&p2.session_key));
    assert_eq!(p1.session_key.client_ip, "192.168.1.10");
    assert_eq!(p1.session_key.client_port, 5555);
    assert_eq!(p1.session_key.server_ip, "192.168.1.20");
    assert_eq!(p1.session_key.server_port, 3306);
    assert_eq!(p1.eth_layer.src_mac, "06:07:08:09:0a:0b");
    assert_eq!(p1.ip_layer.dst_ip, "192.168.1.20");
    assert_eq!(p1.tcp_layer.payload, query_payload(0));
}

// An unmapped port is rejected; a non-IP frame is rejected.
#[test]
fn classifier_rejects_unmapped_and_malformed() {
    let cfg = test_config();
    assert_eq!(classify(&cfg, 5555, 3306), Some((true, DBType::MySQL)));
    assert_eq!(classify(&cfg, 3306, 5555), Some((false, DBType::MySQL)));
    assert_eq!(classify(&cfg, 5555, 6666), None);
    let unmapped = raw_frame(CLIENT_MAC, SERVER_MAC, CLIENT_IP, SERVER_IP, 5555, 6666,
        TCP_PSH | TCP_ACK, &query_payload(0));
    assert!(SessionPacket::new(&cfg, unmapped).is_none());
    assert!(SessionPacket::new(&cfg, vec![0u8; 10]).is_none());
}

fn fresh_session(cfg: &Config, pkt: &SessionPacket) -> Session {
    let mgr = SessionManager::new(cfg.clone());
    Session::new(mgr.create_session_ctx(pkt))
}

// Sequence rollover flush: a client packet with seq 5 followed by one with
// seq 0 flushes exactly once, in between.
#[test]
fn rollover_flushes_exactly_once() {
    let cfg = test_config();
    let first = SessionPacket::new(&cfg, raw_frame(CLIENT_MAC, SERVER_MAC, CLIENT_IP, SERVER_IP,
        5555, 3306, TCP_PSH | TCP_ACK, &query_payload(5))).unwrap();
    let second = SessionPacket::new(&cfg, raw_frame(CLIENT_MAC, SERVER_MAC, CLIENT_IP, SERVER_IP,
        5555, 3306, TCP_PSH | TCP_ACK, &query_payload(0))).unwrap();
    let mut session = fresh_session(&cfg, &first);
    let r1 = session.accept(&first);
    assert!(r1.is_none());
    let r2 = session.accept(&second);
    let flushed = r2.expect("rollover must flush");
    assert_eq!(flushed.len(), 1);
    assert!(matches!(flushed[0], Event::Request(_)));
    assert_eq!(session.pkt_seq, 0);
}

// FIN idempotence: after a FIN the session is closed, and any further
// packet yields no additional events.
#[test]
fn fin_then_anything_is_silent() {
    let cfg = test_config();
    let data = SessionPacket::new(&cfg, raw_frame(CLIENT_MAC, SERVER_MAC, CLIENT_IP, SERVER_IP,
        5555, 3306, TCP_PSH | TCP_ACK, &query_payload(0))).unwrap();
    let fin = SessionPacket::new(&cfg, raw_frame(CLIENT_MAC, SERVER_MAC, CLIENT_IP, SERVER_IP,
        5555, 3306, TCP_FIN | TCP_ACK, &[])).unwrap();
    let mut session = fresh_session(&cfg, &data);
    assert!(session.accept(&data).is_none());
    let batch = session.accept(&fin).expect("FIN flushes");
    assert_eq!(batch.len(), 2);
    assert!(matches!(batch[1], Event::Closed));
    assert_eq!(session.session_ctx.state, SessionState::Closed);
    // Any further packet is swallowed.
    assert!(session.accept(&data).is_none());
    assert!(session.accept(&fin).is_none());
    assert_eq!(session.flow_packets.len(), 0);
}

// A server greeting on a fresh session fills the context.
#[test]
fn greeting_fills_session_context() {
    let cfg = test_config();
    let greeting_body: Vec<u8> = vec![
        0x0a, 0x35, 0x2e, 0x37, 0x2e, 0x34, 0x34, 0x00, 0xee, 0x08, 0x00, 0x00, 0x65, 0x6d,
        0x50, 0x7f, 0x1f, 0x19, 0x2c, 0x32, 0x00, 0xff, 0xff, 0x08, 0x02, 0x00, 0xff, 0xc1,
        0x15, 0x00, 0x00, 0x00, 0x00, 0x00, 0x00, 0x00, 0x00, 0x00, 0x00, 0x25, 0x67, 0x1d,
        0x39, 0x40, 0x1b, 0x6c, 0x7a, 0x66, 0x2f, 0x6a, 0x62, 0x00, 0x6d, 0x79, 0x73, 0x71,
        0x6c, 0x5f, 0x6e, 0x61, 0x74, 0x69, 0x76, 0x65, 0x5f, 0x70, 0x61, 0x73, 0x73, 0x77,
        0x6f, 0x72, 0x64, 0x00,
    ];
    let mut payload = vec![greeting_body.len() as u8, 0, 0, 0];
    payload.extend_from_slice(&greeting_body);
    let pkt = SessionPacket::new(&cfg, raw_frame(SERVER_MAC, CLIENT_MAC, SERVER_IP, CLIENT_IP,
        3306, 5555, TCP_PSH | TCP_ACK, &payload)).unwrap();
    assert!(!pkt.request);
    let mut session = fresh_session(&cfg, &pkt);
    assert_eq!(session.session_ctx.state, SessionState::Init);
    assert!(session.accept(&pkt).is_none());
    assert_eq!(session.session_ctx.state, SessionState::ServerGreeting);
    assert_eq!(session.session_ctx.server_version, "5.7.44");
    assert_eq!(session.session_ctx.connection_id, 2286);
    assert_eq!(session.session_ctx.server_cap, 0xC1FF_FFFF);
    assert_eq!(session.session_ctx.server_status, 2);
    assert_eq!(session.session_ctx.extended_capability_flags, 0xC1FF);
    assert_eq!(session.session_ctx.auth_plugin_name, "mysql_native_password");
    assert_eq!(session.session_ctx.server_language, 8);
    assert_eq!(session.session_ctx.auth_plugin_len, 21);
    // The greeting itself is emitted as an event.
    assert_eq!(session.flow_packets.len(), 1);
    assert!(matches!(session.flow_packets[0], Event::Greeting(_)));
    // A server packet reaching a fresh session out of order is discarded.
    let mut quiet = fresh_session(&cfg, &pkt);
    quiet.pkt_seq = 3;
    assert!(quiet.accept(&pkt).is_none());
    assert_eq!(quiet.flow_packets.len(), 0);
    assert_eq!(quiet.session_ctx.state, SessionState::Init);
}

// The manager creates a session on a pushed payload and removes it on FIN.
#[test]
fn manager_creates_and_tears_down() {
    let cfg = test_config();
    let mut mgr = SessionManager::new(cfg.clone());
    assert!(!mgr.is_running());
    mgr.start();
    assert!(mgr.is_running());
    assert_eq!(mgr.db_type(3306), Some(DBType::MySQL));
    assert_eq!(mgr.db_type(80), None);

    let data = raw_frame(CLIENT_MAC, SERVER_MAC, CLIENT_IP, SERVER_IP, 5555, 3306,
        TCP_PSH | TCP_ACK, &query_payload(0));
    let key_probe = SessionPacket::new(&cfg, data.clone()).unwrap().session_key;
    assert!(!mgr.check_session(&key_probe));
    assert!(mgr.accept(&data, 100).is_none());
    assert!(mgr.check_session(&key_probe));
    // A bare ACK is dropped and changes nothing.
    let ack = raw_frame(CLIENT_MAC, SERVER_MAC, CLIENT_IP, SERVER_IP, 5555, 3306, TCP_ACK,
        &query_payload(1));
    assert!(mgr.accept(&ack, 101).is_none());
    assert!(mgr.check_session(&key_probe));
    // FIN flushes the pending batch and removes the session.
    let fin = raw_frame(CLIENT_MAC, SERVER_MAC, CLIENT_IP, SERVER_IP, 5555, 3306,
        TCP_FIN | TCP_ACK, &[]);
    let batch = mgr.accept(&fin, 102).expect("teardown flushes");
    assert_eq!(batch.len(), 2);
    assert!(!mgr.check_session(&key_probe));
}

// Direction-aware context construction.
#[test]
fn session_ctx_fields_follow_packet() {
    let cfg = test_config();
    let pkt = SessionPacket::new(&cfg, raw_frame(CLIENT_MAC, SERVER_MAC, CLIENT_IP, SERVER_IP,
        5555, 3306, TCP_PSH | TCP_ACK, &query_payload(0))).unwrap();
    let mgr = SessionManager::new(cfg);
    let mut ctx = mgr.create_session_ctx(&pkt);
    assert_eq!(ctx.client_ip, "192.168.1.10");
    assert_eq!(ctx.server_port, 3306);
    assert_eq!(ctx.client_mac, "06:07:08:09:0a:0b");
    assert_eq!(ctx.db_type, DBType::MySQL);
    assert_eq!(ctx.state, SessionState::Init);
    ctx.set_state(SessionState::Authenticated);
    ctx.set_capability_flags(0xFFFF);
    ctx.set_connection_id(42);
    ctx.set_server_language(8);
    ctx.set_status_flags(2);
    ctx.set_extended_capability_flags(0xC1FF);
    ctx.set_auth_plugin_len(21);
    ctx.set_auth_plugin_data(vec![1, 2]);
    ctx.set_auth_plugin_data_2(vec![3]);
    ctx.set_auth_plugin_name("mysql_native_password".to_string());
    ctx.set_server_version("5.7.44".to_string());
    assert_eq!(ctx.state, SessionState::Authenticated);
    assert_eq!(ctx.connection_id, 42);
    assert_eq!(ctx.server_cap, 0xFFFF);
    assert_eq!(ctx.server_version, "5.7.44");
    ctx.client_cap = 0x0F0F;
    assert_eq!(ctx.negotiated_cap(), 0x0F0F);
}

// The layer structs carry what the packet showed.
#[test]
fn layers_are_plain_values() {
    let eth = EthLayer {
        src_mac: "aa:bb:cc:dd:ee:ff".to_string(),
        dst_mac: "00:00:00:00:00:01".to_string(),
        eth_type: 0x0800,
    };
    let ip = IpLayer {
        src_ip: "10.0.0.1".to_string(),
        dst_ip: "10.0.0.2".to_string(),
        payload: vec![1, 2, 3],
    };
    let tcp = TcpLayer { src_port: 1, dst_port: 2, flags: TCP_PSH, payload: vec![] };
    let key = SessionKey {
        client_ip: ip.src_ip.clone(),
        client_port: tcp.src_port,
        server_ip: ip.dst_ip.clone(),
        server_port: tcp.dst_port,
    };
    assert!(key.key_eq(&key));
    assert_eq!(eth.eth_type, 0x0800);
    let ctx = SessionCtx {
        state: SessionState::Init,
        client_ip: ip.src_ip.clone(),
        server_ip: ip.dst_ip.clone(),
        client_port: 1,
        server_port: 2,
        client_mac: eth.src_mac.clone(),
        server_mac: eth.dst_mac.clone(),
        db_type: DBType::Unknown,
        server_cap: 0,
        client_cap: 0,
        server_status: 0,
        client_status: 0,
        server_language: 0,
        client_language: 0,
        server_version: String::new(),
        client_version: String::new(),
        connection_id: 0,
        extended_capability_flags: 0,
        auth_plugin_len: 0,
        auth_plugin_data: vec![],
        auth_plugin_data_2: vec![],
        auth_plugin_name: String::new(),
    };
    assert_eq!(ctx.db_type, DBType::Unknown);
}

// The handshake drives the state machine: greeting, login, server OK.
#[test]
fn handshake_reaches_authenticated() {
    let cfg = test_config();
    let greeting_body: Vec<u8> = vec![
        0x0a, 0x35, 0x2e, 0x37, 0x2e, 0x34, 0x34, 0x00, 0xee, 0x08, 0x00, 0x00, 0x65, 0x6d,
        0x50, 0x7f, 0x1f, 0x19, 0x2c, 0x32, 0x00, 0xff, 0xff, 0x08, 0x02, 0x00, 0xff, 0xc1,
        0x15, 0x00, 0x00, 0x00, 0x00, 0x00, 0x00, 0x00, 0x00, 0x00, 0x00, 0x25, 0x67, 0x1d,
        0x39, 0x40, 0x1b, 0x6c, 0x7a, 0x66, 0x2f, 0x6a, 0x62, 0x00, 0x6d, 0x79, 0x73, 0x71,
        0x6c, 0x5f, 0x6e, 0x61, 0x74, 0x69, 0x76, 0x65, 0x5f, 0x70, 0x61, 0x73, 0x73, 0x77,
        0x6f, 0x72, 0x64, 0x00,
    ];
    let mut greeting_payload = vec![greeting_body.len() as u8, 0, 0, 0];
    greeting_payload.extend_from_slice(&greeting_body);
    // A minimal login: caps with CLIENT_PLUGIN_AUTH_LENENC_CLIENT_DATA off,
    // CLIENT_SECURE_CONNECTION off, so the auth response is NUL-terminated.
    let mut login_body = vec![0u8; 32];
    login_body[0] = 0x00;
    login_body[1] = 0x02; // CLIENT_PROTOCOL_41
    login_body[8] = 0x21;
    login_body[32..32].len();
    login_body.extend_from_slice(b"root\0");
    login_body.extend_from_slice(b"secret\0");
    let mut login_payload = vec![login_body.len() as u8, 0, 0, 1];
    login_payload.extend_from_slice(&login_body);
    let ok_payload = vec![7, 0, 0, 2, 0x00, 0x00, 0x00, 0x02, 0x00, 0x00, 0x00];

    let greeting = SessionPacket::new(&cfg, raw_frame(SERVER_MAC, CLIENT_MAC, SERVER_IP,
        CLIENT_IP, 3306, 5555, TCP_PSH | TCP_ACK, &greeting_payload)).unwrap();
    let login = SessionPacket::new(&cfg, raw_frame(CLIENT_MAC, SERVER_MAC, CLIENT_IP, SERVER_IP,
        5555, 3306, TCP_PSH | TCP_ACK, &login_payload)).unwrap();
    let ok = SessionPacket::new(&cfg, raw_frame(SERVER_MAC, CLIENT_MAC, SERVER_IP, CLIENT_IP,
        3306, 5555, TCP_PSH | TCP_ACK, &ok_payload)).unwrap();

    let mut session = fresh_session(&cfg, &greeting);
    assert!(session.accept(&greeting).is_none());
    assert_eq!(session.session_ctx.state, SessionState::ServerGreeting);
    assert!(session.accept(&login).is_none());
    assert_eq!(session.session_ctx.state, SessionState::ClientHandshakeResponse);
    assert_eq!(session.session_ctx.client_cap, 0x0200);
    assert_eq!(session.session_ctx.server_cap, 0xC1FF_FFFF);
    assert_eq!(session.session_ctx.negotiated_cap(), 0x0200);
    assert!(session.accept(&ok).is_none());
    assert_eq!(session.session_ctx.state, SessionState::Authenticated);
}

// A malformed login closes the session with a DecodeError marker.
#[test]
fn malformed_login_closes_session() {
    let cfg = test_config();
    let greeting_body: Vec<u8> = vec![
        0x0a, 0x35, 0x2e, 0x37, 0x2e, 0x34, 0x34, 0x00, 0xee, 0x08, 0x00, 0x00, 0x65, 0x6d,
        0x50, 0x7f, 0x1f, 0x19, 0x2c, 0x32, 0x00, 0xff, 0xff, 0x08, 0x02, 0x00, 0xff, 0xc1,
        0x15, 0x00, 0x00, 0x00, 0x00, 0x00, 0x00, 0x00, 0x00, 0x00, 0x00, 0x25, 0x67, 0x1d,
        0x39, 0x40, 0x1b, 0x6c, 0x7a, 0x66, 0x2f, 0x6a, 0x62, 0x00, 0x6d, 0x79, 0x73, 0x71,
        0x6c, 0x5f, 0x6e, 0x61, 0x74, 0x69, 0x76, 0x65, 0x5f, 0x70, 0x61, 0x73, 0x73, 0x77,
        0x6f, 0x72, 0x64, 0x00,
    ];
    let mut greeting_payload = vec![greeting_body.len() as u8, 0, 0, 0];
    greeting_payload.extend_from_slice(&greeting_body);
    let greeting = SessionPacket::new(&cfg, raw_frame(SERVER_MAC, CLIENT_MAC, SERVER_IP,
        CLIENT_IP, 3306, 5555, TCP_PSH | TCP_ACK, &greeting_payload)).unwrap();
    // Sequence 1, but far too short to be a login.
    let bad_login = SessionPacket::new(&cfg, raw_frame(CLIENT_MAC, SERVER_MAC, CLIENT_IP,
        SERVER_IP, 5555, 3306, TCP_PSH | TCP_ACK, &[2, 0, 0, 1, 0x85, 0xa6])).unwrap();
    let mut session = fresh_session(&cfg, &greeting);
    assert!(session.accept(&greeting).is_none());
    let batch = session.accept(&bad_login).expect("malformed login flushes");
    assert!(matches!(batch.last(), Some(Event::DecodeError)));
    assert_eq!(session.session_ctx.state, SessionState::Closed);
    assert!(session.accept(&greeting).is_none());
}

// A plausible command on a fresh session marks a mid-connection capture;
// QUIT then closes it.
#[test]
fn mid_capture_command_then_quit() {
    let cfg = test_config();
    let query = SessionPacket::new(&cfg, raw_frame(CLIENT_MAC, SERVER_MAC, CLIENT_IP, SERVER_IP,
        5555, 3306, TCP_PSH | TCP_ACK, &query_payload(0))).unwrap();
    let quit = SessionPacket::new(&cfg, raw_frame(CLIENT_MAC, SERVER_MAC, CLIENT_IP, SERVER_IP,
        5555, 3306, TCP_PSH | TCP_ACK, &[1, 0, 0, 0, 0x01])).unwrap();
    let mut session = fresh_session(&cfg, &query);
    assert!(session.accept(&query).is_none());
    assert_eq!(session.session_ctx.state, SessionState::Authenticated);
    let batch = session.accept(&quit).expect("QUIT flushes");
    assert_eq!(batch.len(), 2);
    assert!(matches!(batch[1], Event::Request(_)));
    assert_eq!(session.session_ctx.state, SessionState::Closed);
    assert_eq!(session.flow_packets.len(), 0);
}

// The periodic sweep removes only sessions idle past the timeout, flushing
// them with a Closed marker.
#[test]
fn sweep_removes_idle_sessions() {
    let cfg = test_config();
    let mut mgr = SessionManager::new(cfg.clone());
    let old_flow = raw_frame(CLIENT_MAC, SERVER_MAC, CLIENT_IP, SERVER_IP, 5555, 3306,
        TCP_PSH | TCP_ACK, &query_payload(0));
    let new_flow = raw_frame(CLIENT_MAC, SERVER_MAC, CLIENT_IP, SERVER_IP, 5556, 3306,
        TCP_PSH | TCP_ACK, &query_payload(0));
    assert!(mgr.accept(&old_flow, 100).is_none());
    assert!(mgr.accept(&new_flow, 500).is_none());
    let old_key = SessionPacket::new(&cfg, old_flow).unwrap().session_key;
    let new_key = SessionPacket::new(&cfg, new_flow).unwrap().session_key;
    // At 450 s with a 300 s timeout, only the session last seen at 100 s is
    // stale.
    let expired = mgr.sweep(450, 300);
    assert_eq!(expired.len(), 1);
    assert_eq!(expired[0].len(), 2);
    assert!(matches!(expired[0][1], Event::Closed));
    assert!(!mgr.check_session(&old_key));
    assert!(mgr.check_session(&new_key));
    // Nothing further to sweep.
    assert!(mgr.sweep(450, 300).is_empty());
}
