use db_observer::mysql::client::login::Login;
use db_observer::mysql::client::query::QueryPacket;
use db_observer::mysql::common::CLIENT_PROTOCOL_41;
use db_observer::mysql::server::eof::EOFPacket;
use db_observer::mysql::server::err::ErrPacket;
use db_observer::mysql::server::greeting::Greeting;
use db_observer::mysql::server::tabular::Tabular;

#[test]
pub fn test_mysql57_login() {
    let packet_bytes = [
        0x85, 0xa6, 0xff, 0x00, 0x00, 0x00, 0x00, 0x40, 0x21, 0x00, 0x00, 0x00, 0x00, 0x00,
        0x00, 0x00, 0x00, 0x00, 0x00, 0x00, 0x00, 0x00, 0x00, 0x00, 0x00, 0x00, 0x00, 0x00,
        0x00, 0x00, 0x00, 0x00, 0x72, 0x6f, 0x6f, 0x74, 0x00, 0x14, 0xc8, 0x31, 0x92, 0xb6,
        0xe9, 0x77, 0xe4, 0xb5, 0xad, 0x29, 0xfb, 0x17, 0x68, 0x39, 0x87, 0xe8, 0xed, 0xfc,
        0x95, 0xce, 0x6d, 0x79, 0x73, 0x71, 0x6c, 0x5f, 0x6e, 0x61, 0x74, 0x69, 0x76, 0x65,
        0x5f, 0x70, 0x61, 0x73, 0x73, 0x77, 0x6f, 0x72, 0x64, 0x00, 0x70, 0x03, 0x5f, 0x6f,
        0x73, 0x06, 0x44, 0x61, 0x72, 0x77, 0x69, 0x6e, 0x0c, 0x5f, 0x63, 0x6c, 0x69, 0x65,
        0x6e, 0x74, 0x5f, 0x6e, 0x61, 0x6d, 0x65, 0x0a, 0x6c, 0x69, 0x62, 0x6d, 0x61, 0x72,
        0x69, 0x61, 0x64, 0x62, 0x04, 0x5f, 0x70, 0x69, 0x64, 0x05, 0x35, 0x31, 0x37, 0x30,
        0x34, 0x0f, 0x5f, 0x63, 0x6c, 0x69, 0x65, 0x6e, 0x74, 0x5f, 0x76, 0x65, 0x72, 0x73,
        0x69, 0x6f, 0x6e, 0x05, 0x33, 0x2e, 0x32, 0x2e, 0x33, 0x09, 0x5f, 0x70, 0x6c, 0x61,
        0x74, 0x66, 0x6f, 0x72, 0x6d, 0x05, 0x61, 0x72, 0x6d, 0x36, 0x34, 0x0c, 0x5f, 0x73,
        0x65, 0x72, 0x76, 0x65, 0x72, 0x5f, 0x68, 0x6f, 0x73, 0x74, 0x0e, 0x31, 0x39, 0x32,
        0x2e, 0x31, 0x36, 0x38, 0x2e, 0x31, 0x30, 0x2e, 0x32, 0x32, 0x31,
    ];

    let login = Login::new(0xFFFFFFFF, packet_bytes.to_vec());
    println!("{:?}", login);
    assert!(login.is_some());
    assert!(login.unwrap().username.is_some());
}

#[test]
pub fn query_test() {
    let packet_bytes = [
        0x03, 0x53, 0x45, 0x54,
        0x20, 0x6e, 0x65, 0x74, 0x5f, 0x77, 0x72, 0x69,
        0x74, 0x65, 0x5f, 0x74, 0x69, 0x6d, 0x65, 0x6f,
        0x75, 0x74, 0x3d, 0x36, 0x30
    ];

    let query_packet = QueryPacket::new(packet_bytes.to_vec()).unwrap();
    assert_eq!(query_packet.cmd.0, 0x03);
    assert_eq!(query_packet.query, "SET net_write_timeout=60");
}

#[test]
pub fn test_mysql57_eof() {
    let packet_bytes = [0xfe, 0x00, 0x00, 0x02, 0x00];
    let eof_pkt = EOFPacket::new(CLIENT_PROTOCOL_41, packet_bytes.to_vec()).unwrap();
    assert_eq!(eof_pkt.header.0, 0xfe);
    assert_eq!(eof_pkt.warnings, 0x00);
    assert_eq!(eof_pkt.status_flags, 2);
}

#[test]
pub fn test_mysql57_err() {
    let packet_bytes = [
        0xff, 0x16, 0x04, 0x23,
        0x33, 0x44, 0x30, 0x30, 0x30, 0x4e, 0x6f, 0x20,
        0x64, 0x61, 0x74, 0x61, 0x62, 0x61, 0x73, 0x65,
        0x20, 0x73, 0x65, 0x6c, 0x65, 0x63, 0x74, 0x65,
        0x64
    ];

    let err_packet = ErrPacket::new(CLIENT_PROTOCOL_41, packet_bytes.to_vec()).unwrap();

    let ErrPacket {
        header,
        error_code,
        sql_state_marker,
        sql_state,
        error_message,
    } = err_packet;
    assert_eq!(header.0, 0xff);
    assert_eq!(error_code, 1046);
    assert_eq!(sql_state_marker, Some(0x23));
    assert_eq!(sql_state, Some("3D000".to_string()));
    assert_eq!(error_message, "No database selected".to_string());
}

#[test]
fn test_ok_packet() {
    let payload = vec![
        0x00, 0x00, 0x00, 0x02,
        0x00, 0x00, 0x00
    ];
    let ok_pkt = db_observer::mysql::server::general_response::OKPacket::new(16754309, payload)
        .unwrap();
    assert_eq!(ok_pkt.affected_rows, 0);
    assert_eq!(ok_pkt.last_insert_id, 0);
    assert_eq!(ok_pkt.status_flags, Some(2));
}

#[test]
pub fn test_mysql57_greeting() {
    let payload = [
        0x0a, 0x35, 0x2e, 0x37, 0x2e, 0x34, 0x34, 0x00, 0xee, 0x08, 0x00, 0x00, 0x65, 0x6d,
        0x50, 0x7f, 0x1f, 0x19, 0x2c, 0x32, 0x00, 0xff, 0xff, 0x08, 0x02, 0x00, 0xff, 0xc1,
        0x15, 0x00, 0x00, 0x00, 0x00, 0x00, 0x00, 0x00, 0x00, 0x00, 0x00, 0x25, 0x67, 0x1d,
        0x39, 0x40, 0x1b, 0x6c, 0x7a, 0x66, 0x2f, 0x6a, 0x62, 0x00, 0x6d, 0x79, 0x73, 0x71,
        0x6c, 0x5f, 0x6e, 0x61, 0x74, 0x69, 0x76, 0x65, 0x5f, 0x70, 0x61, 0x73, 0x73, 0x77,
        0x6f, 0x72, 0x64, 0x00,
    ];

    let greeting = Greeting::new(payload.to_vec()).unwrap();

    let expected = Greeting {
        protocol_version: 10,
        server_version: "5.7.44".to_string(),
        connection_id: 2286,
        auth_plugin_data: vec![101, 109, 80, 127, 31, 25, 44, 50],
        capability_flags: 65535,
        server_language: 8,
        status_flags: 2,
        extended_capability_flags: 49663,
        auth_plugin_len: 21,
        unused: [0, 0, 0, 0, 0, 0, 0, 0, 0, 0],
        auth_plugin_data_2: vec![37, 103, 29, 57, 64, 27, 108, 122, 102, 47, 106, 98],
        auth_plugin_name: "mysql_native_password".to_string(),
    };
    assert_eq!(greeting.protocol_version, expected.protocol_version);
}

#[test]
fn test_ok_packet_without_session_track() {
    let payload = vec![0x00, 0x00, 0x00, 0x02, 0x00, 0x00, 0x00];
    let ok_pkt = db_observer::mysql::server::ok::OKPacket::new(16754309, payload).unwrap();
    assert_eq!(ok_pkt.affected_rows, 0);
    assert_eq!(ok_pkt.last_insert_id, 0);
    assert_eq!(ok_pkt.status_flags, Some(2));
    println!("{:?}", ok_pkt)
}

#[test]
fn test_ok_packet_with_session_track() {
    let payload = vec![
        0x00, 0x00, 0x00, 0x02, 0x40, 0x00, 0x00, 0x00, 0x15, 0x01, 0x13, 0x12, 0x69, 0x6e,
        0x66, 0x6f, 0x72, 0x6d, 0x61, 0x74, 0x69, 0x6f, 0x6e, 0x5f, 0x73, 0x63, 0x68, 0x65,
        0x6d, 0x61,
    ];
    let ok_pkt = db_observer::mysql::server::ok::OKPacket::new(16754309, payload).unwrap();

    assert_eq!(ok_pkt.affected_rows, 0);
    assert_eq!(ok_pkt.last_insert_id, 0);
    assert_eq!(ok_pkt.status_flags, Some(0x4002));
    println!("{:?}", ok_pkt);
}

#[test]
pub fn test_text_results_tabular() {
    let packet_bytes: &[u8] = &[
        0x01, 0x00, 0x00, 0x01, 0x01, 0x35, 0x00, 0x00,
        0x02, 0x03, 0x64, 0x65, 0x66, 0x00, 0x00, 0x00,
        0x1f, 0x40, 0x40, 0x73, 0x65, 0x73, 0x73, 0x69,
        0x6f, 0x6e, 0x2e, 0x74, 0x72, 0x61, 0x6e, 0x73,
        0x61, 0x63, 0x74, 0x69, 0x6f, 0x6e, 0x5f, 0x69,
        0x73, 0x6f, 0x6c, 0x61, 0x74, 0x69, 0x6f, 0x6e,
        0x00, 0x0c, 0x2d, 0x00, 0x3c, 0x00, 0x00, 0x00,
        0xfd, 0x00, 0x00, 0x1f, 0x00, 0x00, 0x10, 0x00,
        0x00, 0x03, 0x0f, 0x52, 0x45, 0x50, 0x45, 0x41,
        0x54, 0x41, 0x42, 0x4c, 0x45, 0x2d, 0x52, 0x45,
        0x41, 0x44, 0x07, 0x00, 0x00, 0x04, 0xfe, 0x00,
        0x00, 0x02, 0x00, 0x00, 0x00
    ];

    let tabular = Tabular::new(16754309, packet_bytes);
    assert!(tabular.is_none());
}

///! Test for local file tabular
#[test]
pub fn test_local_file_tabular() {

}
