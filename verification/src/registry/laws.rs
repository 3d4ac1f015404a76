use vstd::multiset::Multiset;
use vstd::prelude::*;

use crate::registry;
use crate::types::JoinView;

verus! {

/// Every registered game has exactly one running room, and no other game has any.
pub open spec fn one_each<H>(rooms: Map<Seq<u8>, H>, running: Multiset<Seq<u8>>) -> bool {
    forall|g: Seq<u8>| #[trigger]
        running.count(g) == if rooms.contains_key(g) {
            1nat
        } else {
            0
        }
}

/// No game ever has two running rooms. A room is opened only for a game that has none, and a game
/// is forgotten only when its room has stopped; so the registry and the running rooms agree at
/// all times, and a room that stops never takes the entry of a newer one with it.
pub proof fn law_one_room_per_game<H>(
    rooms: Map<Seq<u8>, H>,
    running: Multiset<Seq<u8>>,
    game: Seq<u8>,
    handle: H,
)
    requires
        one_each(rooms, running),
    ensures
        rooms.contains_key(game) ==> one_each(registry::after_request(rooms, game, handle), running),
        !rooms.contains_key(game) ==> one_each(
            registry::after_request(rooms, game, handle),
            running.insert(game),
        ),
        running.count(game) > 0 ==> one_each(rooms.remove(game), running.remove(game)),
        one_each(Map::<Seq<u8>, H>::empty(), Multiset::empty()),
{
    broadcast use vstd::multiset::group_multiset_axioms;

}

/// A request leaves its game with a room: the one that it had, or else the one that is opened for
/// it. The other games are as they were.
pub proof fn law_request_touches_one_game<H>(
    rooms: Map<Seq<u8>, H>,
    game: Seq<u8>,
    handle: H,
    other: Seq<u8>,
)
    ensures
        ({
            let after = registry::after_request(rooms, game, handle);
            &&& after.contains_key(game)
            &&& rooms.contains_key(game) ==> after[game] == rooms[game]
            &&& !rooms.contains_key(game) ==> after[game] == handle
            &&& other != game ==> after.contains_key(other) == rooms.contains_key(other)
            &&& other != game && rooms.contains_key(other) ==> after[other] == rooms[other]
        }),
{
}

/// A game whose room has closed gets a new one with the next request, and the other games keep
/// theirs.
pub proof fn law_closed_game_is_forgotten<H>(
    rooms: Map<Seq<u8>, H>,
    game: Seq<u8>,
    other: Seq<u8>,
)
    requires
        game != other,
    ensures
        !rooms.remove(game).contains_key(game),
        rooms.remove(game).contains_key(other) == rooms.contains_key(other),
        rooms.contains_key(other) ==> rooms.remove(game)[other] == rooms[other],
{
}

/// What happens to a registry: a request, with the handle of the room that is opened for it if
/// its game has none, or word that the room of a game has closed.
pub enum RegistryEvent<H> {
    Request(JoinView, H),
    Closed(Seq<u8>),
}

/// The rooms once an event has been dealt with.
pub open spec fn after_event<H>(rooms: Map<Seq<u8>, H>, event: RegistryEvent<H>) -> Map<
    Seq<u8>,
    H,
> {
    match event {
        RegistryEvent::Request(request, handle) => registry::after_request(rooms, request.game_id, handle),
        RegistryEvent::Closed(game) => rooms.remove(game),
    }
}

/// The rooms once some events have been dealt with, in their order.
pub open spec fn after_events<H>(
    rooms: Map<Seq<u8>, H>,
    events: Seq<RegistryEvent<H>>,
) -> Map<Seq<u8>, H>
    decreases events.len(),
{
    if events.len() == 0 {
        rooms
    } else {
        after_event(after_events(rooms, events.drop_last()), events.last())
    }
}

/// The handle of the room that a request for `game` reaches, where `handle` is that of the room
/// that is opened for it if there is none.
pub open spec fn reached<H>(rooms: Map<Seq<u8>, H>, game: Seq<u8>, handle: H) -> H {
    registry::after_request(rooms, game, handle)[game]
}

/// Whether no game has the room behind `handle`.
pub open spec fn is_new<H>(rooms: Map<Seq<u8>, H>, handle: H) -> bool {
    forall|g: Seq<u8>| #[trigger] rooms.contains_key(g) ==> rooms[g] != handle
}

/// Whether different games have different rooms.
pub open spec fn apart<H>(rooms: Map<Seq<u8>, H>) -> bool {
    forall|g: Seq<u8>, h: Seq<u8>| #[trigger]
        rooms.contains_key(g) && #[trigger] rooms.contains_key(h) && rooms[g] == rooms[h] ==> g == h
}

/// Whether every room that is opened on the way is one that no game has yet.
pub open spec fn opens_new_rooms<H>(
    rooms: Map<Seq<u8>, H>,
    events: Seq<RegistryEvent<H>>,
) -> bool {
    forall|i: int|
        0 <= i < events.len() ==> match #[trigger] events[i] {
            RegistryEvent::Request(request, handle) => is_new(
                after_events(rooms, events.take(i)),
                handle,
            ),
            RegistryEvent::Closed(game) => true,
        }
}

/// Once a game has a room that no other game has, looking a game up gives that room exactly for
/// this game.
pub proof fn law_room_belongs_to_one_game<H>(
    rooms: Map<Seq<u8>, H>,
    a: Seq<u8>,
    b: Seq<u8>,
    handle: H,
)
    requires
        is_new(rooms, handle),
    ensures
        ({
            let after = rooms.insert(a, handle);
            after.contains_key(b) && after[b] == handle <==> b == a
        }),
{
}

/// Different games have different rooms at all times.
pub proof fn law_rooms_stay_apart<H>(rooms: Map<Seq<u8>, H>, events: Seq<RegistryEvent<H>>)
    requires
        apart(rooms),
        opens_new_rooms(rooms, events),
    ensures
        apart(after_events(rooms, events)),
        apart(Map::<Seq<u8>, H>::empty()),
    decreases events.len(),
{
    if events.len() > 0 {
        lemma_front_opens_new_rooms(rooms, events);
        law_rooms_stay_apart(rooms, events.drop_last());
    }
}

proof fn lemma_front_opens_new_rooms<H>(rooms: Map<Seq<u8>, H>, events: Seq<RegistryEvent<H>>)
    requires
        opens_new_rooms(rooms, events),
        events.len() > 0,
    ensures
        opens_new_rooms(rooms, events.drop_last()),
        events.last() matches RegistryEvent::Request(request, handle) ==> is_new(
            after_events(rooms, events.drop_last()),
            handle,
        ),
{
    let front = events.drop_last();
    assert forall|i: int| 0 <= i < front.len() implies match #[trigger] front[i] {
        RegistryEvent::Request(request, handle) => is_new(
            after_events(rooms, front.take(i)),
            handle,
        ),
        RegistryEvent::Closed(game) => true,
    } by {
        assert(front[i] == events[i]);
        assert(front.take(i) =~= events.take(i));
    }
    assert(events.take(events.len() - 1) =~= front);
    assert(events.last() == events[events.len() - 1]);
}

/// A game keeps its room through everything but word that this room has closed.
pub proof fn law_running_room_is_kept<H>(
    rooms: Map<Seq<u8>, H>,
    events: Seq<RegistryEvent<H>>,
    game: Seq<u8>,
)
    requires
        rooms.contains_key(game),
        forall|i: int|
            0 <= i < events.len() ==> #[trigger] events[i] != RegistryEvent::<H>::Closed(game),
    ensures
        after_events(rooms, events).contains_key(game),
        after_events(rooms, events)[game] == rooms[game],
    decreases events.len(),
{
    if events.len() > 0 {
        let front = events.drop_last();
        assert forall|i: int| 0 <= i < front.len() implies #[trigger] front[i] != RegistryEvent::<
            H,
        >::Closed(game) by {
            assert(front[i] == events[i]);
        }
        law_running_room_is_kept(rooms, front, game);
        assert(events.last() == events[events.len() - 1]);
    }
}

/// Two requests reach the same room exactly where they name the same game. `a` is the earlier of
/// the two, for which the room behind `opened_a` is opened if its game has none; `b` comes after
/// `events`, among which there is no word that the room of `a` has closed. Nothing but the two
/// game ids plays a part in it.
pub proof fn law_same_room_exactly_for_same_game<H>(
    rooms: Map<Seq<u8>, H>,
    a: JoinView,
    opened_a: H,
    events: Seq<RegistryEvent<H>>,
    b: JoinView,
    opened_b: H,
)
    requires
        apart(rooms),
        is_new(rooms, opened_a),
        opens_new_rooms(registry::after_request(rooms, a.game_id, opened_a), events),
        is_new(
            after_events(registry::after_request(rooms, a.game_id, opened_a), events),
            opened_b,
        ),
        forall|i: int|
            0 <= i < events.len() ==> #[trigger] events[i] != RegistryEvent::<H>::Closed(
                a.game_id,
            ),
    ensures
        reached(
            after_events(registry::after_request(rooms, a.game_id, opened_a), events),
            b.game_id,
            opened_b,
        ) == reached(rooms, a.game_id, opened_a) <==> b.game_id == a.game_id,
{
    let first = registry::after_request(rooms, a.game_id, opened_a);
    let later = after_events(first, events);
    assert(apart(first));
    law_rooms_stay_apart(first, events);
    law_running_room_is_kept(first, events, a.game_id);
    if later.contains_key(b.game_id) {
        assert(later.contains_key(a.game_id));
    }
}

/// The requests that reach a running room are exactly those for its game, each as it came in and
/// in the order of their arrival: of some requests, those whose room is that of `game` are those
/// that name `game`.
pub proof fn law_room_gets_the_requests_of_its_game<H>(
    rooms: Map<Seq<u8>, H>,
    events: Seq<RegistryEvent<H>>,
    game: Seq<u8>,
)
    requires
        apart(rooms),
        opens_new_rooms(rooms, events),
        rooms.contains_key(game),
        forall|i: int|
            0 <= i < events.len() ==> #[trigger] events[i] != RegistryEvent::<H>::Closed(game),
    ensures
        delivered(rooms, events, rooms[game]) == requests_for(events, game),
    decreases events.len(),
{
    if events.len() > 0 {
        let front = events.drop_last();
        lemma_front_opens_new_rooms(rooms, events);
        assert forall|i: int| 0 <= i < front.len() implies #[trigger] front[i] != RegistryEvent::<
            H,
        >::Closed(game) by {
            assert(front[i] == events[i]);
        }
        law_room_gets_the_requests_of_its_game(rooms, front, game);
        law_rooms_stay_apart(rooms, front);
        law_running_room_is_kept(rooms, front, game);
        let later = after_events(rooms, front);
        if let RegistryEvent::Request(request, handle) = events.last() {
            if later.contains_key(request.game_id) {
                assert(later.contains_key(game));
            }
        }
    }
}

/// The requests among some events that reach the room behind `room`, in their order.
pub open spec fn delivered<H>(
    rooms: Map<Seq<u8>, H>,
    events: Seq<RegistryEvent<H>>,
    room: H,
) -> Seq<JoinView>
    decreases events.len(),
{
    if events.len() == 0 {
        Seq::empty()
    } else {
        let before = delivered(rooms, events.drop_last(), room);
        match events.last() {
            RegistryEvent::Request(request, handle) => if reached(
                after_events(rooms, events.drop_last()),
                request.game_id,
                handle,
            ) == room {
                before.push(request)
            } else {
                before
            },
            RegistryEvent::Closed(game) => before,
        }
    }
}

/// The requests among some events that name `game`, in their order.
pub open spec fn requests_for<H>(events: Seq<RegistryEvent<H>>, game: Seq<u8>) -> Seq<JoinView>
    decreases events.len(),
{
    if events.len() == 0 {
        Seq::empty()
    } else {
        let before = requests_for(events.drop_last(), game);
        match events.last() {
            RegistryEvent::Request(request, handle) => if request.game_id == game {
                before.push(request)
            } else {
                before
            },
            RegistryEvent::Closed(closed) => before,
        }
    }
}

} // verus!
