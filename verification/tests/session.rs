use netplay_server::client::digest::{digest_text, md5_text};
use netplay_server::client::reader::{ClientReader, ReadEffect, ReadPhase};
use netplay_server::client::writer::ClientWriter;
use netplay_server::types::commands;
use netplay_server::types::{Command, Message, Payload};
use std::sync::Arc;

fn reader(size: usize, buffer: &mut Vec<u8>) -> ClientReader {
    let mut r = ClientReader::new();
    assert_eq!(r.phase(), ReadPhase::InputSize);
    assert_eq!(r.wanted(), None);
    r.on_input_size(size, buffer);
    r
}

#[test]
fn input_frames_replace_the_buffer() {
    let mut buffer = vec![5, 5, 5, 5];
    let mut r = reader(2, &mut buffer);
    assert_eq!(buffer, vec![5, 5]);
    assert_eq!(r.wanted(), Some(3));
    assert!(r.on_bytes(vec![0, 8, 9], &mut buffer).is_none());
    assert_eq!(buffer, vec![8, 9]);
    assert_eq!(r.wanted(), Some(3));
}

#[test]
fn buffer_grows_with_zeros() {
    let mut buffer = vec![7];
    let r = reader(3, &mut buffer);
    assert_eq!(buffer, vec![7, 0, 0]);
    assert_eq!(r.wanted(), Some(4));
}

#[test]
fn numbers_are_forwarded() {
    let mut buffer = vec![1];
    let mut r = reader(1, &mut buffer);
    assert!(r.on_bytes(vec![0x40, 0xaa], &mut buffer).is_none());
    assert_eq!(buffer, vec![1]);
    assert_eq!(r.wanted(), Some(4));
    match r.on_bytes(vec![4, 3, 2, 1], &mut buffer) {
        Some(ReadEffect::Forward(Command { cmd, payload: Payload::Number(n) })) => {
            assert_eq!(cmd, 0x40);
            assert_eq!(n, 0x01020304);
        }
        other => panic!("{:?}", other),
    }
    assert_eq!(r.wanted(), Some(2));
}

#[test]
fn integrity_has_no_body() {
    let mut buffer = vec![1];
    let mut r = reader(1, &mut buffer);
    r.on_bytes(vec![commands::INTEGRITY, 0], &mut buffer);
    match r.on_bytes(vec![9, 0, 0, 0], &mut buffer) {
        Some(ReadEffect::Forward(Command { cmd, payload: Payload::Number(n) })) => {
            assert_eq!(cmd, commands::INTEGRITY);
            assert_eq!(n, 9);
        }
        other => panic!("{:?}", other),
    }
    assert_eq!(r.phase(), ReadPhase::Frame);
}

#[test]
fn idle_command_is_dropped() {
    let mut buffer = vec![1];
    let mut r = reader(1, &mut buffer);
    r.on_bytes(vec![commands::NOP, 0], &mut buffer);
    assert!(r.on_bytes(vec![1, 0, 0, 0], &mut buffer).is_none());
    assert_eq!(r.wanted(), Some(2));
}

#[test]
fn controller_change_waits_for_the_new_size() {
    let mut buffer = vec![1];
    let mut r = reader(1, &mut buffer);
    r.on_bytes(vec![commands::CTRL_CHANGE_ACK, 0], &mut buffer);
    assert!(matches!(
        r.on_bytes(vec![0, 0, 0, 0], &mut buffer),
        Some(ReadEffect::Forward(Command { cmd: 0x44, payload: Payload::Number(0) }))
    ));
    assert_eq!(r.wanted(), None);
    r.on_input_size(4, &mut buffer);
    assert_eq!(buffer, vec![1, 0, 0, 0]);
    assert_eq!(r.wanted(), Some(5));
}

#[test]
fn bodies_are_forwarded() {
    let mut buffer = vec![];
    let mut r = reader(0, &mut buffer);
    assert_eq!(r.wanted(), Some(1));
    r.on_bytes(vec![commands::TEXT], &mut buffer);
    assert!(r.on_bytes(vec![2, 0, 0, 0], &mut buffer).is_none());
    assert_eq!(r.wanted(), Some(2));
    match r.on_bytes(b"hi".to_vec(), &mut buffer) {
        Some(ReadEffect::Forward(Command { cmd, payload: Payload::Data(data) })) => {
            assert_eq!(cmd, commands::TEXT);
            assert_eq!(data.to_vec(), b"hi".to_vec());
        }
        other => panic!("{:?}", other),
    }
}

#[test]
fn integrity_answers_are_digested() {
    let mut buffer = vec![];
    let mut r = reader(0, &mut buffer);
    r.on_bytes(vec![commands::INTEGRITY_RES], &mut buffer);
    r.on_bytes(vec![26, 0, 0, 0], &mut buffer);
    match r.on_bytes(b"abcdefghijklmnopqrstuvwxyz".to_vec(), &mut buffer) {
        Some(ReadEffect::Log(line)) => assert_eq!(line, "c3fcd3d76192e4007dfb496cca67e13b"),
        other => panic!("{:?}", other),
    }
    assert_eq!(md5_text(b""), "d41d8cd98f00b204e9800998ecf8427e");
    let mut digest = [0u8; 16];
    digest[0] = 0x0a;
    digest[15] = 0xf1;
    assert_eq!(digest_text(&digest), "0a0000000000000000000000000000f1");
}

#[test]
fn commands_are_encoded() {
    let mut w = ClientWriter::new(6);
    let out = w.encode(&Message::Command(Command { cmd: 0x12, payload: Payload::Number(258) }));
    assert_eq!(out.bytes, vec![2, 1, 0, 0, 0, 0, 0x12]);
    assert!(!out.flush);
    let data: Arc<[u8]> = Arc::from(vec![7u8, 8, 9]);
    let out = w.encode(&Message::Command(Command { cmd: 0x90, payload: Payload::Data(data) }));
    assert_eq!(out.bytes, vec![3, 0, 0, 0, 0, 0, 0x90, 7, 8, 9]);
    assert!(!out.flush);
}

#[test]
fn frames_are_encoded_and_flushed() {
    let mut w = ClientWriter::new(4);
    let out = w.encode(&Message::AllGamepads(Arc::from(vec![1u8, 2, 3, 4])));
    assert_eq!(out.bytes, vec![1, 2, 3, 4, 0]);
    assert!(out.flush);
    // a frame without room for a number is shorter than a header
    let out = w.encode(&Message::AllGamepads(Arc::from(vec![1u8])));
    assert_eq!(out.bytes, vec![1, 0]);
}
