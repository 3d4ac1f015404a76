use netplay_server::client::{
    connect_error, log_in, login_length, parse, refusal, LoginData, LoginOutcome,
};
use netplay_server::config::Config;
use netplay_server::types::Protocol;

fn login(protocol: u8, controllers: u8, tail: &[u8]) -> Vec<u8> {
    let mut buf = vec![0u8; 97];
    for i in 0..16 {
        buf[i] = i as u8;
        buf[16 + i] = 100 + i as u8;
        buf[48 + i] = 2;
        buf[80 + i] = 7;
    }
    buf[32] = protocol;
    buf[33] = controllers;
    buf[96] = 3;
    buf.extend_from_slice(tail);
    buf
}

fn accepted(buf: &[u8]) -> LoginData {
    match parse(buf) {
        Ok(l) => l,
        Err(e) => panic!("{}", e),
    }
}

fn rejected(buf: &[u8]) -> String {
    match parse(buf) {
        Ok(_) => panic!("accepted"),
        Err(e) => e,
    }
}

#[test]
fn old_protocol_login() {
    let l = accepted(&login(1, 2, b"bob"));
    assert_eq!(l.protocol, Protocol::V1);
    assert_eq!(l.total_controllers, 2);
    assert_eq!(l.controller_data_size, [1; 16]);
    assert_eq!(l.controller_type, [1; 16]);
    assert_eq!(l.local_players, 3);
    assert_eq!(l.nickname, b"bob".to_vec());
    assert_eq!(l.emu_id.to_vec(), vec![0u8; 64]);
    let id: Vec<u8> = (0..16).collect();
    assert_eq!(l.game_id.to_vec(), id);
    let password: Vec<u8> = (100..116).collect();
    assert_eq!(l.password.to_vec(), password);
    assert_eq!(l.controller_buffer_len(), 4);
}

#[test]
fn newest_protocol_login_with_emulator() {
    let mut buf = login(3, 16, b"alice\x01emu\x00\x1f");
    buf[36] = 6;
    let l = accepted(&buf);
    assert_eq!(l.protocol, Protocol::V3);
    assert_eq!(l.nickname, b"alice".to_vec());
    assert_eq!(l.controller_data_size, [2; 16]);
    assert_eq!(l.controller_type, [7; 16]);
    assert_eq!(l.emu_id[..7].to_vec(), b" emu\x00 \x00".to_vec());
    assert_eq!(l.controller_buffer_len(), 32);
}

#[test]
fn emulator_is_ignored_by_old_protocols_and_when_too_long() {
    let mut buf = login(2, 1, b"alicexyz");
    buf[36] = 3;
    let l = accepted(&buf);
    assert_eq!(l.protocol, Protocol::V2);
    assert_eq!(l.nickname, b"alice".to_vec());
    assert_eq!(l.emu_id.to_vec(), vec![0u8; 64]);

    let mut buf = login(3, 1, &[65u8; 80]);
    buf[36] = 65;
    let l = accepted(&buf);
    assert_eq!(l.nickname, vec![65u8; 15]);
    assert_eq!(l.emu_id.to_vec(), vec![0u8; 64]);

    // the length is larger than all that is left
    let mut buf = login(3, 1, b"alice");
    buf[36] = 255;
    buf[37] = 255;
    buf[38] = 255;
    buf[39] = 255;
    let l = accepted(&buf);
    assert_eq!(l.nickname.len(), 0);
    assert_eq!(l.emu_id.to_vec(), vec![0u8; 64]);
}

#[test]
fn emulator_follows_the_longest_nickname() {
    let mut tail = vec![66u8; 150];
    tail.extend_from_slice(b"rest");
    let mut buf = login(3, 1, &tail);
    buf[36] = 2;
    let l = accepted(&buf);
    assert_eq!(l.nickname, vec![66u8; 150]);
    assert_eq!(l.emu_id[..3].to_vec(), b"re\x00".to_vec());
}

#[test]
fn login_errors() {
    assert_eq!(rejected(&login(0, 1, b"")), "Protocol 0 not supported.");
    assert_eq!(rejected(&login(255, 1, b"")), "Protocol 255 not supported.");
    assert_eq!(
        rejected(&login(2, 9, b"")),
        "That number of controllers(9) isn't supported with that protocol version."
    );
    assert_eq!(rejected(&login(3, 17, b"")), "That number of controllers(17) isn't supported.");
    let mut buf = login(3, 1, b"");
    for i in 48..64 {
        buf[i] = 32;
    }
    assert_eq!(accepted(&buf).controller_data_size, [32; 16]);
    buf[63] = 33;
    assert_eq!(rejected(&buf), "Exceeded MaxTotalControllersDataSize");
    // the old protocols do not look at the sizes
    buf[32] = 1;
    assert_eq!(accepted(&buf).controller_data_size, [1; 16]);
}

#[test]
fn verdict_on_short_logins() {
    let mut buf = vec![0u8; 33];
    buf[32] = 4;
    assert_eq!(rejected(&buf), "Protocol 4 not supported.");
    let mut buf = vec![0u8; 34];
    buf[32] = 1;
    buf[33] = 200;
    assert_eq!(
        rejected(&buf),
        "That number of controllers(200) isn't supported with that protocol version."
    );
}

#[test]
fn login_length_limits() {
    assert_eq!(login_length(&[97, 0, 0, 0]), Ok(97));
    assert_eq!(login_length(&[0xf7, 0x20, 0, 0]), Ok(8439));
    assert_eq!(login_length(&[96, 0, 0, 0]), Err("Login len(96) out of range.".to_string()));
    assert_eq!(
        login_length(&[0xf8, 0x20, 0, 0]),
        Err("Login len(8440) out of range.".to_string())
    );
    assert_eq!(
        login_length(&[255, 255, 255, 255]),
        Err("Login len(4294967295) out of range.".to_string())
    );
}

#[test]
fn connect_error_fills_header() {
    let mut cmd_buf = vec![9u8; 6];
    let data = connect_error(&mut cmd_buf, "no");
    assert_eq!(cmd_buf, vec![2, 0, 0, 0, 9, 0x90]);
    assert_eq!(data, vec![0, 0, 0, 0, b'n', b'o']);
    // the number covers the code where there is no room for both
    let mut cmd_buf = vec![9u8; 4];
    connect_error(&mut cmd_buf, "no");
    assert_eq!(cmd_buf, vec![2, 0, 0, 0]);
}

#[test]
fn refusal_counts_bytes_not_characters() {
    let (header, data) = refusal(4, "\u{e9}");
    assert_eq!(header, vec![2, 0, 0, 0, 0x90]);
    assert_eq!(data, vec![0, 0, 0, 0, 0xc3, 0xa9]);
}

#[test]
fn password_is_asked_for() {
    let mut config = Config::from_file("server.conf");
    let buf = login(3, 3, b"bob");
    match log_in(&buf, &config) {
        LoginOutcome::Join { request, buffer_len } => {
            assert_eq!(buffer_len, 6);
            assert_eq!(request.client_data.nickname, b"bob".to_vec());
            assert_eq!(request.client_data.controller_buffer, vec![0u8; 6]);
            assert_eq!(request.client_data.id, 0);
            assert!(!request.client_data.dead);
            assert_eq!(request.local_players, 3);
            assert_eq!(request.game_info.total_controllers, 3);
            assert_eq!(request.game_info.controller_type, [7; 16]);
            assert_eq!(request.game_id[15], 15);
        }
        other => panic!("{:?}", other),
    }
    config.password = Some([1; 16]);
    match log_in(&buf, &config) {
        LoginOutcome::Refused { error, header, data } => {
            assert_eq!(error, "Invalid server password.");
            assert_eq!(header, vec![24, 0, 0, 0, 0, 0, 0x90]);
            assert_eq!(data[..4].to_vec(), vec![0u8; 4]);
            assert_eq!(data[4..].to_vec(), b"Invalid server password.".to_vec());
        }
        other => panic!("{:?}", other),
    }
    let mut password = [0u8; 16];
    password.copy_from_slice(&buf[16..32]);
    config.password = Some(password);
    assert!(matches!(log_in(&buf, &config), LoginOutcome::Join { .. }));
    match log_in(&login(9, 0, b""), &config) {
        LoginOutcome::Malformed(e) => assert_eq!(e, "Protocol 9 not supported."),
        other => panic!("{:?}", other),
    }
}

#[test]
fn settings() {
    let config = Config::from_file("a");
    assert_eq!(config.max_clients, 50);
    assert_eq!(config.connect_timeout, 5);
    assert_eq!(config.idle_timeout, 30);
    assert_eq!(config.port, 4046);
    assert!(config.password.is_none());
    assert_eq!(config.min_send_queue_size, 262144);
    assert_eq!(config.max_send_queue_size, 8388608);
    assert_eq!(config.max_command_payload, 5242880);
    assert_eq!(Config::default().port, 0);
    assert_eq!(Config::default().max_clients, 0);
}
