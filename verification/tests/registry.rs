use netplay_server::registry::{join_result, RoomRegistry};

#[test]
fn rooms_are_opened_once() {
    let mut registry: RoomRegistry<u32> = RoomRegistry::new();
    let mut a = [0u8; 16];
    a[15] = 1;
    let b = [0u8; 16];
    assert_eq!(*registry.room_for(a, || 1), 1);
    assert_eq!(*registry.room_for(a, || 2), 1);
    assert_eq!(*registry.room_for(b, || 3), 3);
    registry.close(&a);
    assert_eq!(*registry.room_for(b, || 5), 3);
    assert_eq!(*registry.room_for(a, || 4), 4);
}

#[test]
fn requests_meet_exactly_where_their_games_agree() {
    let mut registry: RoomRegistry<u32> = RoomRegistry::new();
    let a = [7u8; 16];
    assert_eq!(*registry.room_for(a, || 1), 1);
    // a difference in any one byte makes another game
    for i in 0..16 {
        let mut b = a;
        b[i] = 8;
        assert_eq!(*registry.room_for(b, || 100 + i as u32), 100 + i as u32);
        registry.close(&b);
    }
    assert_eq!(*registry.room_for(a, || 2), 1);
}

#[test]
fn closing_an_unknown_game_is_harmless() {
    let mut registry: RoomRegistry<u32> = RoomRegistry::new();
    registry.room_for([1; 16], || 1);
    registry.close(&[2; 16]);
    assert_eq!(*registry.room_for([1; 16], || 9), 1);
    assert_eq!(*registry.room_for([2; 16], || 9), 9);
}

#[test]
fn join_results() {
    assert_eq!(
        join_result(false, None),
        Err("The room closed while you were trying to join. Please try again.".to_string())
    );
    assert_eq!(
        join_result(false, Some(Ok(()))),
        Err("The room closed while you were trying to join. Please try again.".to_string())
    );
    assert_eq!(
        join_result(true, None),
        Err("The room did not respond to the join request. Please try again.".to_string())
    );
    assert_eq!(join_result(true, Some(Ok(()))), Ok(()));
    assert_eq!(join_result(true, Some(Err("x".to_string()))), Err("x".to_string()));
}
