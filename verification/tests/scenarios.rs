use db_observer::cmd;
use db_observer::config::Config;
use db_observer::mysql::client::login::Login;
use db_observer::mysql::common::{
    MySQLPacketRequest, MySQLPacketResponse, MySQLParser, CLIENT_PROTOCOL_41,
};
use db_observer::mysql::server::eof::EOFPacket;
use db_observer::mysql::server::err::ErrPacket;
use db_observer::mysql::server::greeting::Greeting;
use db_observer::mysql::server::{classify_server_packet, ServerPacketKind};
use db_observer::payload::Payload;
use db_observer::{Command, DBPacket, DBType};

// Client login: username, plugin name and connection attributes.
#[test]
fn login_fields_and_attrs() {
    let packet_bytes = [
        0x85, 0xa6, 0xff, 0x00, 0x00, 0x00, 0x00, 0x40, 0x21, 0x00, 0x00, 0x00, 0x00, 0x00,
        0x00, 0x00, 0x00, 0x00, 0x00, 0x00, 0x00, 0x00, 0x00, 0x00, 0x00, 0x00, 0x00, 0x00,
        0x00, 0x00, 0x00, 0x00, 0x72, 0x6f, 0x6f, 0x74, 0x00, 0x14, 0xc8, 0x31, 0x92, 0xb6,
        0xe9, 0x77, 0xe4, 0xb5, 0xad, 0x29, 0xfb, 0x17, 0x68, 0x39, 0x87, 0xe8, 0xed, 0xfc,
        0x95, 0xce, 0x6d, 0x79, 0x73, 0x71, 0x6c, 0x5f, 0x6e, 0x61, 0x74, 0x69, 0x76, 0x65,
        0x5f, 0x70, 0x61, 0x73, 0x73, 0x77, 0x6f, 0x72, 0x64, 0x00, 0x70, 0x03, 0x5f, 0x6f,
        0x73, 0x06, 0x44, 0x61, 0x72, 0x77, 0x69, 0x6e, 0x0c, 0x5f, 0x63, 0x6c, 0x69, 0x65,
        0x6e, 0x74, 0x5f, 0x6e, 0x61, 0x6d, 0x65, 0x0a, 0x6c, 0x69, 0x62, 0x6d, 0x61, 0x72,
        0x69, 0x61, 0x64, 0x62, 0x04, 0x5f, 0x70, 0x69, 0x64, 0x05, 0x35, 0x31, 0x37, 0x30,
        0x34, 0x0f, 0x5f, 0x63, 0x6c, 0x69, 0x65, 0x6e, 0x74, 0x5f, 0x76, 0x65, 0x72, 0x73,
        0x69, 0x6f, 0x6e, 0x05, 0x33, 0x2e, 0x32, 0x2e, 0x33, 0x09, 0x5f, 0x70, 0x6c, 0x61,
        0x74, 0x66, 0x6f, 0x72, 0x6d, 0x05, 0x61, 0x72, 0x6d, 0x36, 0x34, 0x0c, 0x5f, 0x73,
        0x65, 0x72, 0x76, 0x65, 0x72, 0x5f, 0x68, 0x6f, 0x73, 0x74, 0x0e, 0x31, 0x39, 0x32,
        0x2e, 0x31, 0x36, 0x38, 0x2e, 0x31, 0x30, 0x2e, 0x32, 0x32, 0x31,
    ];
    let login = Login::new(0xFFFFFFFF, packet_bytes.to_vec()).unwrap();
    assert_eq!(login.cap, 0x00FFA685);
    assert_eq!(login.max_packet_size, 0x40000000);
    assert_eq!(login.charset, 0x21);
    assert_eq!(login.username, Some("root".to_string()));
    assert_eq!(login.database, None);
    assert_eq!(login.auth_plugin_name, Some("mysql_native_password".to_string()));
    assert_eq!(login.auth_response_length, 20);
    assert_eq!(login.auth_response.as_ref().unwrap().len(), 20);
    assert_eq!(login.zstd_compression_level, None);
    let attr = |k: &str| -> Option<String> {
        login.attrs.iter().find(|kv| kv.0 == k).map(|kv| kv.1.clone())
    };
    assert_eq!(attr("_os"), Some("Darwin".to_string()));
    assert_eq!(attr("_client_name"), Some("libmariadb".to_string()));
    assert_eq!(attr("_pid"), Some("51704".to_string()));
    assert_eq!(attr("_server_host"), Some("192.168.10.221".to_string()));
    assert_eq!(login.attrs.len(), 6);
}

// A login with a non-zero filler byte is rejected.
#[test]
fn login_rejects_dirty_filler() {
    let mut bytes = vec![0u8; 40];
    bytes[10] = 1;
    assert!(Login::new(0xFFFFFFFF, bytes).is_none());
    assert!(Login::new(0xFFFFFFFF, vec![0u8; 8]).is_none());
}

// OK packet under the capability set of the handshake scenario.
#[test]
fn ok_packet_full_fields() {
    let payload = vec![0x00, 0x00, 0x00, 0x02, 0x00, 0x00, 0x00];
    let ok = db_observer::mysql::server::ok::OKPacket::new(0xFFC215, payload).unwrap();
    assert_eq!(ok.affected_rows, 0);
    assert_eq!(ok.last_insert_id, 0);
    assert_eq!(ok.status_flags, Some(2));
    assert_eq!(ok.warnings, Some(0));
    assert_eq!(ok.cmd.0, 0);
}

// OK session-track info decodes to the schema name.
#[test]
fn ok_packet_schema_change_text() {
    let payload = vec![
        0x00, 0x00, 0x00, 0x02, 0x40, 0x00, 0x00, 0x00, 0x15, 0x01, 0x13, 0x12, 0x69, 0x6e,
        0x66, 0x6f, 0x72, 0x6d, 0x61, 0x74, 0x69, 0x6f, 0x6e, 0x5f, 0x73, 0x63, 0x68, 0x65,
        0x6d, 0x61,
    ];
    let ok = db_observer::mysql::server::ok::OKPacket::new(16754309, payload).unwrap();
    let track = ok.session_track_info.unwrap();
    assert_eq!(track.schema_change_info, Some("information_schema".to_string()));
}

// Malformed bodies are rejected rather than misread.
#[test]
fn short_bodies_are_rejected() {
    assert!(EOFPacket::new(CLIENT_PROTOCOL_41, vec![0xfe, 0x00]).is_none());
    assert!(EOFPacket::new(0, vec![0xfe]).is_some());
    assert!(ErrPacket::new(CLIENT_PROTOCOL_41, vec![0xff, 0x16, 0x04]).is_none());
    assert!(ErrPacket::new(0, vec![0xff, 0x16, 0x04]).is_some());
    assert!(Greeting::new(vec![]).is_none());
    assert!(db_observer::mysql::server::ok::OKPacket::new(0xFFC215, vec![0x00, 0x00]).is_none());
    assert!(MySQLPacketRequest::new(&[1, 2, 3, 4]).is_none());
    assert!(MySQLPacketResponse::new(&[1, 2, 3, 4]).is_none());
}

// A greeting with a dirty reserved byte is rejected.
#[test]
fn greeting_rejects_dirty_reserved_bytes() {
    let mut payload = vec![
        0x0a, 0x35, 0x2e, 0x37, 0x2e, 0x34, 0x34, 0x00, 0xee, 0x08, 0x00, 0x00, 0x65, 0x6d,
        0x50, 0x7f, 0x1f, 0x19, 0x2c, 0x32, 0x00, 0xff, 0xff, 0x08, 0x02, 0x00, 0xff, 0xc1,
        0x15, 0x00, 0x00, 0x00, 0x00, 0x00, 0x00, 0x00, 0x00, 0x00, 0x00, 0x25, 0x67, 0x1d,
        0x39, 0x40, 0x1b, 0x6c, 0x7a, 0x66, 0x2f, 0x6a, 0x62, 0x00, 0x6d, 0x79, 0x73, 0x71,
        0x6c, 0x5f, 0x6e, 0x61, 0x74, 0x69, 0x76, 0x65, 0x5f, 0x70, 0x61, 0x73, 0x73, 0x77,
        0x6f, 0x72, 0x64, 0x00,
    ];
    payload[30] = 1;
    assert!(Greeting::new(payload).is_none());
}

// The packet header views of both directions.
#[test]
fn packet_headers_decode() {
    let req = MySQLPacketRequest::new(&[6, 0, 0, 2, 0x03, b'S', b'E', b'L', b'1', 0]).unwrap();
    assert_eq!(req.get_len(), 6);
    assert_eq!(req.get_seq(), 2);
    assert_eq!(req.get_command().0, 0x03);
    assert!(req.is_request());
    assert!(matches!(req.db_type(), DBType::MySQL));
    assert_eq!(req.get_payload(), vec![b'S', b'E', b'L', b'1', 0]);

    let resp = MySQLPacketResponse::new(&[7, 0, 0, 1, 0x00, 0, 0, 0, 2, 0, 0]).unwrap();
    assert_eq!(resp.get_len(), 7);
    assert_eq!(resp.get_seq(), 1);
    assert_eq!(resp.get_command().0, 0x00);
    assert!(!resp.is_request());
    assert_eq!(resp.get_payload().len(), 11);

    let _parser = MySQLParser::new();
}

#[test]
fn db_type_names_round_trip() {
    assert_eq!(DBType::from_str("MySQL"), Some(DBType::MySQL));
    assert_eq!(DBType::from_str("Unknown"), Some(DBType::Unknown));
    assert_eq!(DBType::from_str("Oracle"), None);
    assert_eq!(DBType::MySQL.name(), "MySQL");
    assert_eq!(DBType::Unknown.name(), "Unknown");
}

#[test]
fn payload_and_commands() {
    let p = Payload::new(DBType::MySQL, vec![1, 2, 3]);
    assert_eq!(p.get_db_type(), DBType::MySQL);
    assert_eq!(p.get_payload(), vec![1, 2, 3]);
    let c = Command::from(0x03);
    assert_eq!(c.0, 0x03);
    let c2 = cmd::Command::new(0x0E);
    assert_eq!(c2, cmd::Command(0x0E));
    assert!(cmd::Command(1) < cmd::Command(2));
}

#[test]
fn config_port_lookup() {
    let cfg = Config {
        bpf: String::new(),
        device: String::new(),
        support_db: vec![(3306, DBType::MySQL), (3309, DBType::Unknown)],
    };
    assert_eq!(cfg.db_for(3306), Some(DBType::MySQL));
    assert_eq!(cfg.db_for(3309), Some(DBType::Unknown));
    assert_eq!(cfg.db_for(1), None);
}

// A text resultset: column count, terminating EOF, row marker, error tail.
#[test]
fn tabular_text_resultset_decodes() {
    // Column count 1, the metadata EOF packet, the row's 0xFB marker,
    // terminator 0xFE, NUL-terminated detail bytes.
    let mut body = vec![0x01];
    body.extend_from_slice(&[0xfe, 0x00, 0x00, 0x02, 0x00]);
    body.push(0xfb);
    body.push(0xfe);
    body.extend_from_slice(b"oops\0");
    let tab = db_observer::mysql::server::tabular::Tabular::new(CLIENT_PROTOCOL_41, &body)
        .unwrap();
    assert_eq!(tab.packet_type, 0x01);
    let tr = tab.result_sets.unwrap();
    assert_eq!(tr.column_count, 1);
    assert!(tr.eof.is_some());
    assert_eq!(tr.eof.as_ref().unwrap().status_flags, 2);
    assert_eq!(tr.terminator, 0xfe);
    assert_eq!(tr.error_details, Some(b"oops".to_vec()));
    assert!(tr.execution_details.is_none());
    assert!(tr.eof_marker.is_none());
}

// LOCAL INFILE inline chunks: tagged length-prefixed blocks up to a zero tag.
#[test]
fn tabular_local_infile_chunks() {
    let body = vec![0xfb, 0x02, 0x03, 0xAA, 0xBB, 0xCC, 0x05, 0x01, 0xDD, 0x00];
    let tab = db_observer::mysql::server::tabular::Tabular::new(0, &body).unwrap();
    assert_eq!(tab.packet_type, 0xfb);
    let chunks = tab.local_inlines.unwrap();
    assert_eq!(chunks.len(), 2);
    assert_eq!(chunks[0].packet_type, 0x02);
    assert_eq!(chunks[0].payload, Some(vec![0xAA, 0xBB, 0xCC]));
    assert_eq!(chunks[1].packet_type, 0x05);
    assert_eq!(chunks[1].payload, Some(vec![0xDD]));
    // A truncated chunk list is rejected.
    assert!(db_observer::mysql::server::tabular::Tabular::new(0, &[0xfb, 0x02, 0x03, 0xAA])
        .is_none());
}

// Server packet kinds follow the first-byte precedence, 0xFE being
// ambiguous between EOF and a resultset's 8-byte column count.
#[test]
fn server_packet_kind_precedence() {
    assert_eq!(classify_server_packet(&[]), None);
    assert_eq!(classify_server_packet(&[0x00, 0, 0, 2, 0, 0, 0]),
        Some(ServerPacketKind::OkResponse));
    assert_eq!(classify_server_packet(&[0x00, 0, 0]), Some(ServerPacketKind::ResultSetHead));
    assert_eq!(classify_server_packet(&[0xFF, 0x16, 0x04]), Some(ServerPacketKind::ErrResponse));
    assert_eq!(classify_server_packet(&[0xFE, 0, 0, 2, 0]), Some(ServerPacketKind::EofResponse));
    assert_eq!(classify_server_packet(&[0xFE, 1, 2, 3, 4, 5, 6, 7, 8]),
        Some(ServerPacketKind::ResultSetHead));
    assert_eq!(classify_server_packet(&[0xFB]), Some(ServerPacketKind::LocalInfile));
    assert_eq!(classify_server_packet(&[0x05]), Some(ServerPacketKind::ResultSetHead));
}

// The error message runs to the end of the body, through any NUL byte.
#[test]
fn err_message_keeps_nul_bytes() {
    let packet_bytes = vec![0xff, 0x16, 0x04, 0x23, 0x33, 0x44, 0x30, 0x30, 0x30, 0x41, 0x00,
        0x42];
    let err = ErrPacket::new(CLIENT_PROTOCOL_41, packet_bytes).unwrap();
    assert_eq!(err.error_message, "A\u{0}B");
}

// The statement text runs to the end of the body, through any NUL byte.
#[test]
fn query_text_keeps_nul_bytes() {
    let q = db_observer::mysql::client::query::QueryPacket::new(vec![0x03, 0x61, 0x00, 0x62])
        .unwrap();
    assert_eq!(q.query, "a\u{0}b");
}

// Without the session-track capability, the trailer is only the
// human-readable info string, even when the status bit is set.
#[test]
fn ok_trailer_without_session_track_capability() {
    let payload = vec![0x00, 0x00, 0x00, 0x02, 0x40, 0x00, 0x00, 0x02, b'h', b'i'];
    let ok = db_observer::mysql::server::ok::OKPacket::new(CLIENT_PROTOCOL_41, payload)
        .unwrap();
    assert_eq!(ok.status_flags, Some(0x4002));
    let track = ok.session_track_info.unwrap();
    assert_eq!(track.info, "hi");
    assert_eq!(track.schema_change_info, None);
}
