use std::collections::HashMap;
use vstd::bytes::u128_from_le_bytes;
use vstd::prelude::*;

use crate::types::GameID;

pub mod laws;

verus! {

broadcast use vstd::std_specs::hash::group_hash_axioms;

/// The number that stands for a game.
closed spec fn key(game_id: Seq<u8>) -> u128 {
    vstd::bytes::spec_u128_from_le_bytes(game_id)
}

/// Different games have different numbers.
proof fn lemma_key_injective(a: Seq<u8>, b: Seq<u8>)
    requires
        a.len() == 16,
        b.len() == 16,
        key(a) == key(b),
    ensures
        a == b,
{
    vstd::bytes::lemma_auto_spec_u128_to_from_le_bytes();
    assert(vstd::bytes::spec_u128_to_le_bytes(vstd::bytes::spec_u128_from_le_bytes(a)) == a);
    assert(vstd::bytes::spec_u128_to_le_bytes(vstd::bytes::spec_u128_from_le_bytes(b)) == b);
}

/// The rooms once a request for `game` has come in: a game that has no room gets the one behind
/// `handle`.
pub open spec fn after_request<H>(rooms: Map<Seq<u8>, H>, game: Seq<u8>, handle: H) -> Map<
    Seq<u8>,
    H,
> {
    if rooms.contains_key(game) {
        rooms
    } else {
        rooms.insert(game, handle)
    }
}

/// The open rooms, each with a handle by which it is reached.
pub struct RoomRegistry<H> {
    rooms: HashMap<u128, H>,
}

impl<H> View for RoomRegistry<H> {
    type V = Map<Seq<u8>, H>;

    /// The handle of the room of each game that has one.
    closed spec fn view(&self) -> Map<Seq<u8>, H> {
        Map::new(
            |game_id: Seq<u8>| game_id.len() == 16 && self.rooms@.contains_key(key(game_id)),
            |game_id: Seq<u8>| self.rooms@[key(game_id)],
        )
    }
}

fn key_of(game_id: &GameID) -> (r: u128)
    ensures
        r == key(game_id@),
{
    u128_from_le_bytes(game_id.as_slice())
}

impl<H> RoomRegistry<H> {
    /// A registry without rooms.
    pub fn new() -> (r: RoomRegistry<H>)
        ensures
            r@ == Map::<Seq<u8>, H>::empty(),
    {
        let r: RoomRegistry<H> = RoomRegistry { rooms: HashMap::new() };
        assert(r@ =~= Map::<Seq<u8>, H>::empty());
        r
    }

    /// The handle of the room of a game. Where the game has no room yet, `create` opens one.
    pub fn room_for<F: FnOnce() -> H>(&mut self, game_id: GameID, create: F) -> (r: &H)
        requires
            !old(self)@.contains_key(game_id@) ==> create.requires(()),
        ensures
            !old(self)@.contains_key(game_id@) ==> create.ensures((), *r),
            final(self)@ == after_request(old(self)@, game_id@, *r),
            final(self)@.contains_key(game_id@),
            *r == final(self)@[game_id@],
    {
        let k: u128 = key_of(&game_id);
        if !self.rooms.contains_key(&k) {
            let handle: H = create();
            self.rooms.insert(k, handle);
            proof {
                assert forall|other: Seq<u8>| other.len() == 16 && key(other) == k implies other
                    == game_id@ by {
                    lemma_key_injective(other, game_id@);
                }
                assert(self@ =~= old(self)@.insert(game_id@, handle));
            }
        }
        self.rooms.get(&k).unwrap()
    }

    /// Forgets the room of a game, which has closed.
    pub fn close(&mut self, game_id: &GameID)
        ensures
            final(self)@ == old(self)@.remove(game_id@),
    {
        let k: u128 = key_of(game_id);
        self.rooms.remove(&k);
        proof {
            assert forall|other: Seq<u8>| other.len() == 16 && key(other) == k implies other
                == game_id@ by {
                lemma_key_injective(other, game_id@);
            }
            assert(self@ =~= old(self)@.remove(game_id@));
        }
    }
}

/// What a client hears of its request to join: `delivered` says whether the request reached the
/// room, and `answer` is what the room said, if it said anything.
pub fn join_result(delivered: bool, answer: Option<Result<(), String>>) -> (r: Result<(), String>)
    ensures
        !delivered ==> r is Err && r->Err_0@
            == "The room closed while you were trying to join. Please try again."@,
        delivered && answer is None ==> r is Err && r->Err_0@
            == "The room did not respond to the join request. Please try again."@,
        delivered && answer is Some ==> r == answer->0,
{
    if !delivered {
        return Err(
            "The room closed while you were trying to join. Please try again.".to_string(),
        );
    }
    match answer {
        Some(result) => result,
        None => Err(
            "The room did not respond to the join request. Please try again.".to_string(),
        ),
    }
}

} // verus!
