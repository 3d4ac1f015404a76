use netplay_server::room::run_loop::{Phase, RoomEvent, RoomLoop};
use netplay_server::room::{Effect, Room, DEFAULT_FPS, FPS_FACTOR};
use netplay_server::types::commands;
use netplay_server::types::{
    ClientData, Command, GameInfo, JoinRequest, Message, Payload, Protocol,
};
use std::sync::Arc;

fn info(sizes: &[u8]) -> GameInfo {
    let mut controller_data_size = [0u8; 16];
    controller_data_size[..sizes.len()].copy_from_slice(sizes);
    GameInfo {
        protocol: Protocol::V3,
        emu_id: [0; 64],
        total_controllers: sizes.len(),
        controller_type: [1; 16],
        controller_data_size,
    }
}

fn request(sizes: &[u8], name: &[u8], players: usize) -> JoinRequest {
    JoinRequest {
        game_id: [0; 16],
        game_info: info(sizes),
        client_data: ClientData {
            id: 0,
            dead: false,
            nickname: name.to_vec(),
            controller_buffer: vec![0; 512],
        },
        local_players: players,
    }
}

fn room(sizes: &[u8], players: usize) -> Room {
    Room::new(request(sizes, b"ann", players)).0
}

fn data(bytes: &[u8]) -> Payload {
    Payload::Data(Arc::from(bytes.to_vec()))
}

/// The effects that are sends of a command: receiver, code, number or bytes.
fn sent(effects: &[Effect]) -> Vec<(usize, u8, Result<u32, Vec<u8>>)> {
    let mut out = vec![];
    for e in effects {
        if let Effect::Send { to, message: Message::Command(c) } = e {
            out.push((
                *to,
                c.cmd,
                match &c.payload {
                    Payload::Number(n) => Ok(*n),
                    Payload::Data(d) => Err(d.to_vec()),
                },
            ));
        }
    }
    out
}

fn reply(effects: &[Effect]) -> Option<Result<(), String>> {
    for e in effects {
        if let Effect::Reply(r) = e {
            return Some(r.clone());
        }
    }
    None
}

fn owners(room: &Room) -> Vec<Vec<usize>> {
    let mut out = vec![];
    for c in room.controllers() {
        out.push(c.owners.clone());
    }
    out
}

fn ids(room: &Room) -> Vec<usize> {
    let mut out = vec![];
    for c in room.clients() {
        out.push(c.id);
    }
    out
}

#[test]
fn first_client_opens_the_room() {
    let (room, effects) = Room::new(request(&[2, 3, 4], b"ann", 2));
    assert_eq!(owners(&room), vec![vec![1], vec![1], vec![]]);
    assert_eq!(effects.len(), 3);
    assert!(matches!(effects[0], Effect::InputSize { to: 1, size: 5 }));
    let notice = vec![3, 0, 0, 0, 0, 0, 0, 0, b'a', b'n', b'n'];
    assert_eq!(sent(&effects), vec![(1, commands::YOUJOINED, Err(notice))]);
    assert_eq!(reply(&effects), Some(Ok(())));
    assert_eq!(room.frame_size(), 9);
    assert_eq!(room.make_mps(1), [3, 0, 0, 0]);
    assert_eq!(room.make_mps(2), [0, 0, 0, 0]);
    assert_eq!(room.get_controller_buffer_size(1), 5);
    assert_eq!(room.get_controller_buffer_size(2), 0);
}

#[test]
fn second_client_gets_what_is_free() {
    let mut room = room(&[2, 3, 4], 2);
    let effects = room.handle_join(request(&[2, 3, 4], b"bob", 9));
    assert_eq!(ids(&room), vec![1, 2]);
    assert_eq!(owners(&room), vec![vec![1], vec![1], vec![2]]);
    assert!(matches!(effects[0], Effect::InputSize { to: 2, size: 4 }));
    let notice = vec![4, 0, 0, 0, 0, 0, 0, 0, b'b', b'o', b'b'];
    assert_eq!(
        sent(&effects),
        vec![
            (1, commands::PLAYERJOINED, Err(notice.clone())),
            (2, commands::YOUJOINED, Err(notice))
        ]
    );
    let effects = room.handle_join(request(&[2, 3, 4], b"", 1));
    assert!(matches!(effects[0], Effect::InputSize { to: 3, size: 0 }));
    assert_eq!(owners(&room), vec![vec![1], vec![1], vec![2]]);
}

#[test]
fn high_controllers_set_high_bits() {
    let mut room = room(&[1; 16], 9);
    room.handle_join(request(&[1; 16], b"b", 7));
    assert_eq!(room.make_mps(1), [0xff, 0x01, 0, 0]);
    assert_eq!(room.make_mps(2), [0x00, 0xfe, 0, 0]);
}

#[test]
fn other_games_are_refused() {
    let mut room = room(&[1, 1], 1);
    let effects = room.handle_join(request(&[1, 2], b"bob", 1));
    assert_eq!(effects.len(), 1);
    assert_eq!(reply(&effects), Some(Err("Your game info is invalid.".to_string())));
    assert_eq!(ids(&room), vec![1]);
    let mut other = request(&[1, 1], b"bob", 1);
    other.game_info.emu_id[63] = 1;
    assert_eq!(
        reply(&room.handle_join(other)),
        Some(Err("Your game info is invalid.".to_string()))
    );
    let mut other = request(&[1, 1], b"bob", 1);
    other.game_info.protocol = Protocol::V2;
    assert!(other.game_info != info(&[1, 1]));
    assert_eq!(
        reply(&room.handle_join(other)),
        Some(Err("Your game info is invalid.".to_string()))
    );
}

#[test]
fn full_rooms_refuse() {
    let mut room = room(&[1], 0);
    for i in 1..32 {
        assert_eq!(reply(&room.handle_join(request(&[1], b"x", 0))), Some(Ok(())));
        assert_eq!(room.clients().len(), i + 1);
    }
    let effects = room.handle_join(request(&[1], b"x", 0));
    assert_eq!(effects.len(), 1);
    assert_eq!(reply(&effects), Some(Err("Sorry, game is full.".to_string())));
    // being full comes before the game
    let effects = room.handle_join(request(&[2], b"x", 0));
    assert_eq!(reply(&effects), Some(Err("Sorry, game is full.".to_string())));
    assert_eq!(room.clients().len(), 32);
}

#[test]
fn emulator_commands_go_to_everybody() {
    let mut room = room(&[1], 1);
    room.handle_join(request(&[1], b"bob", 0));
    let effects = room.handle_command(1, Command { cmd: 0x3f, payload: Payload::Number(7) });
    assert_eq!(sent(&effects), vec![(1, 0x3f, Ok(7)), (2, 0x3f, Ok(7))]);
    assert_eq!(effects.len(), 2);
}

#[test]
fn rate_is_set() {
    let mut room = room(&[1], 1);
    let effects =
        room.handle_command(0, Command { cmd: commands::SETFPS, payload: Payload::Number(60) });
    assert_eq!(effects.len(), 1);
    assert!(matches!(effects[0], Effect::SetRate(60)));
    assert_eq!(room.rate(), 60);
    // joins, other commands and departures leave it alone
    room.handle_join(request(&[1], b"bob", 0));
    room.handle_command(0, Command { cmd: commands::SETFPS, payload: data(b"") });
    room.handle_command(0, Command { cmd: commands::QUIT, payload: data(b"") });
    room.remove_dead();
    assert_eq!(room.rate(), 60);
}

#[test]
fn new_rooms_run_at_the_default_rate() {
    assert_eq!(DEFAULT_FPS, 1008307711);
    assert_eq!(FPS_FACTOR, 16777216);
    assert_eq!(room(&[1], 1).rate(), DEFAULT_FPS);
    assert_eq!(RoomLoop::start(request(&[], b"ann", 1)).0.room().rate(), DEFAULT_FPS);
}

#[test]
fn text_names_its_speaker() {
    let mut room = room(&[1], 1);
    room.handle_join(request(&[1], b"bob", 0));
    let effects = room.handle_command(1, Command { cmd: commands::TEXT, payload: data(b"hi") });
    let line = vec![3, 0, 0, 0, b'b', b'o', b'b', b'h', b'i'];
    assert_eq!(sent(&effects), vec![(1, 0x90, Err(line.clone())), (2, 0x90, Err(line))]);
}

#[test]
fn echoes_are_cut() {
    let mut room = room(&[1], 1);
    room.handle_join(request(&[1], b"bob", 0));
    let effects = room.handle_command(1, Command { cmd: commands::ECHO, payload: data(b"hi") });
    assert_eq!(sent(&effects), vec![(2, commands::ECHO, Err(b"hi".to_vec()))]);
    let effects =
        room.handle_command(0, Command { cmd: commands::ECHO, payload: data(&[5; 256]) });
    assert_eq!(sent(&effects), vec![(1, commands::ECHO, Err(vec![5; 256]))]);
    let effects =
        room.handle_command(0, Command { cmd: commands::ECHO, payload: data(&[5; 257]) });
    assert_eq!(sent(&effects), vec![(1, commands::ECHO, Err(vec![5; 256]))]);
}

#[test]
fn unknown_commands_are_logged() {
    let mut room = room(&[1], 1);
    let effects = room.handle_command(0, Command { cmd: 0x41, payload: Payload::Number(0) });
    match &effects[0] {
        Effect::Log(line) => assert_eq!(line, "Unknown command 0x41"),
        other => panic!("{:?}", other),
    }
    let effects = room.handle_command(0, Command { cmd: 5, payload: data(b"") });
    match &effects[0] {
        Effect::Log(line) => assert_eq!(line, "Unknown command 0x5"),
        other => panic!("{:?}", other),
    }
    // a command known with a number is not known with bytes, and the other way round
    let effects = room.handle_command(0, Command { cmd: commands::SETFPS, payload: data(b"") });
    assert!(matches!(effects[0], Effect::Log(_)));
    let effects =
        room.handle_command(0, Command { cmd: commands::QUIT, payload: Payload::Number(0) });
    assert!(matches!(effects[0], Effect::Log(_)));
    assert!(!room.clients()[0].dead);
}

#[test]
fn quitters_free_their_controllers() {
    let mut room = room(&[1, 1], 1);
    room.handle_join(request(&[1, 1], b"bob", 1));
    let effects = room.handle_command(0, Command { cmd: commands::QUIT, payload: data(b"bye") });
    assert_eq!(effects.len(), 0);
    assert!(room.clients()[0].dead);
    assert_eq!(owners(&room), vec![vec![1], vec![2]]);
    room.remove_dead();
    assert_eq!(ids(&room), vec![2]);
    assert_eq!(owners(&room), vec![vec![], vec![2]]);
    room.handle_join(request(&[1, 1], b"cid", 1));
    assert_eq!(ids(&room), vec![2, 3]);
    assert_eq!(owners(&room), vec![vec![3], vec![2]]);
}

#[test]
fn ids_follow_the_largest() {
    let mut room = room(&[1], 0);
    room.handle_join(request(&[1], b"b", 0));
    room.handle_join(request(&[1], b"c", 0));
    room.mark_unreached(&vec![true, false, false]);
    room.remove_dead();
    assert_eq!(ids(&room), vec![1]);
    room.handle_join(request(&[1], b"d", 0));
    assert_eq!(ids(&room), vec![1, 2]);
}

#[test]
fn inputs_are_merged() {
    let mut room = room(&[2, 1, 3], 1);
    room.handle_join(request(&[2, 1, 3], b"bob", 2));
    room.take_inputs(vec![vec![1, 2, 99], vec![3, 4, 5, 6]]);
    assert_eq!(room.collect_inputs(), vec![1, 2, 3, 4, 5, 6]);
    room.mark_unreached(&vec![false, true]);
    room.remove_dead();
    // nobody plays on the first controller any more
    assert_eq!(room.collect_inputs(), vec![0, 0, 3, 4, 5, 6]);
    assert_eq!(room.frame_size(), 6);
}

#[test]
fn a_room_goes_round() {
    let (mut state, effects) = RoomLoop::start(request(&[1, 2], b"ann", 1));
    assert_eq!(effects.len(), 3);
    assert_eq!(state.phase(), Phase::Tick);
    assert_eq!(state.run_loop(RoomEvent::Tick).len(), 0);
    assert_eq!(state.phase(), Phase::Join);
    let effects = state.run_loop(RoomEvent::Join(request(&[1, 2], b"bob", 1)));
    assert_eq!(effects.len(), 4);
    let effects = state.run_loop(RoomEvent::Join(request(&[9], b"eve", 1)));
    assert_eq!(effects.len(), 1);
    assert_eq!(state.phase(), Phase::Join);
    assert_eq!(state.run_loop(RoomEvent::NoJoin).len(), 0);
    assert_eq!(state.phase(), Phase::Command(0));
    let effects = state
        .run_loop(RoomEvent::Command(Command { cmd: commands::QUIT, payload: data(b"") }));
    assert_eq!(effects.len(), 0);
    assert_eq!(state.phase(), Phase::Command(0));
    state.run_loop(RoomEvent::NoCommand);
    assert_eq!(state.phase(), Phase::Command(1));
    state.run_loop(RoomEvent::NoCommand);
    assert_eq!(state.phase(), Phase::Inputs);
    // the one who quit still takes part in this frame
    let effects = state.run_loop(RoomEvent::Inputs(vec![vec![7], vec![8, 9]]));
    assert_eq!(effects.len(), 2);
    for (i, e) in effects.iter().enumerate() {
        match e {
            Effect::Send { to, message: Message::AllGamepads(frame) } => {
                assert_eq!(*to, i + 1);
                assert_eq!(frame.to_vec(), vec![7, 8, 9]);
            }
            other => panic!("{:?}", other),
        }
    }
    assert_eq!(state.phase(), Phase::Sent);
    assert_eq!(state.run_loop(RoomEvent::Sent(vec![true, true])).len(), 0);
    assert_eq!(state.phase(), Phase::Tick);
    assert_eq!(ids(state.room()), vec![2]);
    assert_eq!(state.room().get_controller_buffer_size(2), 2);

    state.run_loop(RoomEvent::Tick);
    state.run_loop(RoomEvent::NoJoin);
    state.run_loop(RoomEvent::NoCommand);
    state.run_loop(RoomEvent::Inputs(vec![vec![8, 9]]));
    state.run_loop(RoomEvent::Sent(vec![false]));
    assert_eq!(state.phase(), Phase::Ended);
    assert_eq!(state.room().clients().len(), 0);
}

#[test]
fn a_game_without_controllers() {
    let (mut state, effects) = RoomLoop::start(request(&[], b"ann", 1));
    assert!(matches!(effects[0], Effect::InputSize { to: 1, size: 0 }));
    state.run_loop(RoomEvent::Tick);
    state.run_loop(RoomEvent::NoJoin);
    state.run_loop(RoomEvent::NoCommand);
    let effects = state.run_loop(RoomEvent::Inputs(vec![vec![]]));
    match &effects[0] {
        Effect::Send { message: Message::AllGamepads(frame), .. } => assert_eq!(frame.len(), 0),
        other => panic!("{:?}", other),
    }    // leaving works without controllers too
    let mut room = room(&[], 1);
    room.handle_join(request(&[], b"bob", 1));
    room.handle_command(0, Command { cmd: commands::QUIT, payload: data(b"") });
    room.remove_dead();
    assert_eq!(ids(&room), vec![2]);
}

#[test]
fn refusals_are_foreseen() {
    let mut room = room(&[1], 0);
    assert_eq!(room.refusal(&request(&[1], b"x", 0)), None);
    assert_eq!(room.refusal(&request(&[2], b"x", 0)), Some("Your game info is invalid."));
    for _ in 1..32 {
        room.handle_join(request(&[1], b"x", 0));
    }
    assert_eq!(room.refusal(&request(&[1], b"x", 0)), Some("Sorry, game is full."));
}
