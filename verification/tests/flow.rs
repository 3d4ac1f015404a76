use netplay_server::client::reader::ClientReader;
use netplay_server::client::writer::ClientWriter;
use netplay_server::client::{log_in, LoginOutcome};
use netplay_server::config::Config;
use netplay_server::room::run_loop::{Phase, RoomEvent, RoomLoop};
use netplay_server::room::Effect;
use netplay_server::types::JoinRequest;

fn join(name: &[u8]) -> (JoinRequest, usize) {
    let mut buf = vec![0u8; 97];
    buf[32] = 3;
    buf[33] = 2;
    for i in 48..64 {
        buf[i] = 3;
    }
    buf[96] = 1;
    buf.extend_from_slice(name);
    match log_in(&buf, &Config::from_file(())) {
        LoginOutcome::Join { request, buffer_len } => (request, buffer_len),
        other => panic!("{:?}", other),
    }
}

fn input_size(effects: &[Effect]) -> usize {
    match effects[0] {
        Effect::InputSize { size, .. } => size,
        _ => panic!("no input size"),
    }
}

#[test]
fn inputs_travel_from_client_to_client() {
    let (ann, header_len) = join(b"ann");
    let (bob, _) = join(b"bob");
    assert_eq!(header_len, 6);
    let mut ann_buffer = ann.client_data.controller_buffer.clone();
    let bob_buffer = bob.client_data.controller_buffer.clone();
    let (mut state, effects) = RoomLoop::start(ann);
    let mut reader = ClientReader::new();
    reader.on_input_size(input_size(&effects), &mut ann_buffer);
    assert_eq!(ann_buffer, vec![0, 0, 0]);
    assert_eq!(reader.wanted(), Some(4));
    assert!(reader.on_bytes(vec![0, 1, 2, 3], &mut ann_buffer).is_none());

    state.run_loop(RoomEvent::Tick);
    let effects = state.run_loop(RoomEvent::Join(bob));
    assert_eq!(input_size(&effects), 3);
    let mut writer = ClientWriter::new(header_len);
    match &effects[1] {
        Effect::Send { to, message } => {
            assert_eq!(*to, 1);
            let mut expected = vec![11, 0, 0, 0, 0, 0, 0xa0];
            expected.extend_from_slice(&[2, 0, 0, 0, 0, 0, 0, 0]);
            expected.extend_from_slice(b"bob");
            assert_eq!(writer.encode(message).bytes, expected);
        }
        other => panic!("{:?}", other),
    }
    state.run_loop(RoomEvent::NoJoin);
    state.run_loop(RoomEvent::NoCommand);
    state.run_loop(RoomEvent::NoCommand);
    assert_eq!(state.phase(), Phase::Inputs);
    // bob has not heard of its input size yet, and still holds a whole frame's worth
    assert_eq!(bob_buffer.len(), 6);
    let effects = state.run_loop(RoomEvent::Inputs(vec![ann_buffer, bob_buffer]));
    match &effects[0] {
        Effect::Send { to, message } => {
            assert_eq!(*to, 1);
            let out = writer.encode(message);
            // as long as a header: seven bytes
            assert_eq!(out.bytes, vec![1, 2, 3, 0, 0, 0, 0]);
            assert!(out.flush);
        }
        other => panic!("{:?}", other),
    }
}
