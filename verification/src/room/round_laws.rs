use vstd::prelude::*;

use crate::room;
use crate::room::laws;
use crate::room::model;
use crate::room::model::{ControllerView, EffectView, RoomView};
use crate::room::proofs;
use crate::room::run_loop::{EventView, LoopView, Phase, RoomEvent, RoomLoop};
use crate::room::{ControllerData, Effect, Room};
use crate::types::{ClientView, Message, MessageView};

verus! {

/// Which events a room goes on with: in each phase those that it waits for. Of a join request it
/// only asks that an id is left for the newcomer; of inputs that there is one for each client, with
/// a byte for every byte of its controllers; of the word on a frame that there is one for each
/// client.
pub proof fn law_what_is_waited_for(state: LoopView, event: EventView)
    ensures
        event is Tick ==> (state.accepts(event) <==> state.phase == Phase::Tick),
        event is NoJoin ==> (state.accepts(event) <==> state.phase == Phase::Join),
        event matches EventView::Join(request) ==> (state.accepts(event) <==> state.phase
            == Phase::Join && (state.room.clients.len() < 32 && request.game_info
            == state.room.game_info ==> model::next_id(state.room.clients) <= usize::MAX)),
        event is Command ==> (state.accepts(event) <==> state.phase is Command),
        event is NoCommand ==> (state.accepts(event) <==> state.phase is Command),
        event matches EventView::Inputs(inputs) ==> (state.accepts(event) <==> {
            &&& state.phase == Phase::Inputs
            &&& inputs.len() == state.room.clients.len()
            &&& forall|i: int|
                0 <= i < inputs.len() ==> (#[trigger] inputs[i]).len() >= model::owned_size(
                    state.room.controllers,
                    state.room.clients[i].id,
                )
        }),
        event matches EventView::Sent(reached) ==> (state.accepts(event) <==> state.phase
            == Phase::Sent && reached.len() == state.room.clients.len()),
{
    if let EventView::Inputs(inputs) = event {
        let room = state.room.with_inputs(inputs);
        if inputs.len() == state.room.clients.len() {
            assert forall|i: int| 0 <= i < inputs.len() implies #[trigger] inputs[i]
                == room.clients[i].controller_buffer && room.clients[i].id
                == state.room.clients[i].id by {}
            if room.buffers_fit() {
                assert forall|i: int| 0 <= i < inputs.len() implies (#[trigger] inputs[i]).len()
                    >= model::owned_size(state.room.controllers, state.room.clients[i].id) by {
                    assert(room.clients[i].controller_buffer.len() >= model::owned_size(
                        room.controllers,
                        room.clients[i].id,
                    ));
                }
            }
            if forall|i: int|
                0 <= i < inputs.len() ==> (#[trigger] inputs[i]).len() >= model::owned_size(
                    state.room.controllers,
                    state.room.clients[i].id,
                ) {
                assert forall|i: int| 0 <= i < room.clients.len() implies (
                #[trigger] room.clients[i]).controller_buffer.len() >= model::owned_size(
                    room.controllers,
                    room.clients[i].id,
                ) by {
                    assert(inputs[i].len() >= model::owned_size(
                        state.room.controllers,
                        state.room.clients[i].id,
                    ));
                }
            }
        }
    }
}

/// How a room goes round: from a tick to the join requests, as many as there are; then to the
/// commands of the first client, as many as there are, and of the next, up to the last; then to
/// the inputs, to the word on the frame, and to the next tick or, once nobody is left, to the end.
pub proof fn law_room_goes_round(state: LoopView, event: EventView)
    requires
        state.accepts(event),
    ensures
        event is Tick ==> state.next(event).phase == Phase::Join,
        event is Join ==> state.next(event).phase == Phase::Join,
        event is NoJoin ==> state.next(event).phase == Phase::Command(0),
        event is Command ==> state.next(event).phase == state.phase,
        state.phase matches Phase::Command(i) ==> event is NoCommand ==> {
            if i + 1 < state.room.clients.len() {
                state.next(event).phase == Phase::Command((i + 1) as usize)
            } else {
                state.next(event).phase == Phase::Inputs
            }
        },
        event is Inputs ==> state.next(event).phase == Phase::Sent,
        event is Sent && state.next(event).room.clients.len() > 0 ==> state.next(event).phase
            == Phase::Tick,
        event is Sent && state.next(event).room.clients.len() == 0 ==> state.next(event).phase
            == Phase::Ended,
{
}

/// What an event means for the room: a request is one to join it, a command is one of the client
/// whose turn it is, and ticks and word that nothing is left change nothing. Nothing follows from
/// the word on a frame.
pub proof fn law_events_reach_the_room(state: LoopView, event: EventView)
    requires
        state.accepts(event),
    ensures
        event is Tick || event is NoJoin || event is NoCommand ==> state.next(event).room
            == state.room && state.effects(event).len() == 0,
        event matches EventView::Join(request) ==> state.next(event).room == state.room.after_join(
            request,
        ) && state.effects(event) == state.room.join_effects(request),
        event matches EventView::Command(command) ==> {
            let i = state.phase->Command_0 as int;
            &&& state.next(event).room == state.room.after_command(i, command)
            &&& state.effects(event) == state.room.command_effects(i, command)
        },
        event is Sent ==> state.effects(event).len() == 0,
{
}

/// Inputs that are taken become those of the clients, each that of the client at its position,
/// and nothing else about the clients or the room changes. An event that brings inputs has them
/// taken.
pub proof fn law_inputs_are_taken(state: LoopView, inputs: Seq<Seq<u8>>, i: int)
    requires
        inputs.len() == state.room.clients.len(),
        0 <= i < inputs.len(),
    ensures
        ({
            let room = state.room;
            let after = room.with_inputs(inputs);
            &&& state.accepts(EventView::Inputs(inputs)) ==> state.next(
                EventView::Inputs(inputs),
            ).room == after
            &&& after.clients.len() == room.clients.len()
            &&& after.clients[i].controller_buffer == inputs[i]
            &&& after.clients[i].id == room.clients[i].id
            &&& after.clients[i].dead == room.clients[i].dead
            &&& after.clients[i].nickname == room.clients[i].nickname
            &&& after.controllers == room.controllers
            &&& after.game_info == room.game_info
            &&& after.rate == room.rate
        }),
{
}

/// The frame of a room goes to every client, in their order.
pub proof fn law_frame_goes_to_everybody(room: RoomView, m: int)
    requires
        0 <= m < room.clients.len(),
    ensures
        room.input_effects().len() == room.clients.len(),
        room.input_effects()[m] == (EffectView::Send {
            to: room.clients[m].id,
            message: MessageView::AllGamepads(model::merged(room.clients, room.controllers)),
        }),
{
}

/// Once the inputs are in, every client gets one frame, in their order. In it, the bytes of each
/// controller are those that the client who plays on it has put into this very event for it: the
/// client's controllers take its bytes in turn.
pub proof fn law_frame_carries_the_inputs(
    state: LoopView,
    inputs: Seq<Seq<u8>>,
    i: int,
    k: int,
    m: int,
)
    requires
        state.wf(),
        state.accepts(EventView::Inputs(inputs)),
        0 <= i < state.room.clients.len(),
        0 <= k < state.room.controllers.len(),
        state.room.controllers[k].owners.contains(state.room.clients[i].id),
        0 <= m < state.room.clients.len(),
    ensures
        ({
            let cs = state.room.controllers;
            let at = model::total_size(cs.take(k)) as int;
            let from = model::owned_size(cs.take(k), state.room.clients[i].id) as int;
            let size = cs[k].size as int;
            let effects = state.effects(EventView::Inputs(inputs));
            &&& effects.len() == state.room.clients.len()
            &&& effects[m] matches EffectView::Send { to, message: MessageView::AllGamepads(frame) }
            &&& to == state.room.clients[m].id
            &&& frame.len() == model::total_size(cs)
            &&& at + size <= frame.len()
            &&& from + size <= inputs[i].len()
            &&& frame.subrange(at, at + size) == inputs[i].subrange(from, from + size)
        }),
{
    let after = state.room.with_inputs(inputs);
    let id = state.room.clients[i].id;
    laws::law_running_room_stays_well_formed(state, EventView::Inputs(inputs));
    assert(after.clients[i].controller_buffer == inputs[i]);
    laws::law_frame_carries_input(after, k, i);
    laws::lemma_merged_len(after.clients, after.controllers);
    proofs::lemma_take_next(after.controllers, k, id);
    proofs::lemma_take_bounded(after.controllers, k + 1, id);
}

/// In the frame that every client gets, the bytes of a controller that nobody plays on are zero.
pub proof fn law_free_controllers_are_silent(
    state: LoopView,
    inputs: Seq<Seq<u8>>,
    k: int,
    m: int,
    j: int,
)
    requires
        state.wf(),
        state.accepts(EventView::Inputs(inputs)),
        0 <= k < state.room.controllers.len(),
        state.room.controllers[k].owners.len() == 0,
        0 <= m < state.room.clients.len(),
        0 <= j < state.room.controllers[k].size,
    ensures
        ({
            let cs = state.room.controllers;
            let at = model::total_size(cs.take(k)) as int;
            let effects = state.effects(EventView::Inputs(inputs));
            &&& effects[m] matches EffectView::Send { to, message: MessageView::AllGamepads(frame) }
            &&& to == state.room.clients[m].id
            &&& frame.len() == model::total_size(cs)
            &&& at + j < frame.len()
            &&& frame[at + j] == 0
        }),
{
    let after = state.room.with_inputs(inputs);
    laws::law_unowned_controller_is_silent(after, k);
    laws::lemma_merged_len(after.clients, after.controllers);
    proofs::lemma_take_next(after.controllers, k, 0);
    proofs::lemma_take_bounded(after.controllers, k + 1, 0);
    let at = model::total_size(after.controllers.take(k)) as int;
    let size = after.controllers[k].size as int;
    let frame = model::merged(after.clients, after.controllers);
    assert(frame.subrange(at, at + size)[j] == frame[at + j]);
}

/// Whether a client sets bit `b` of byte `j` of controller `k`.
pub open spec fn sets_bit(c: ClientView, cs: Seq<ControllerView>, k: int, j: int, b: u8) -> bool {
    &&& cs[k].owners.contains(c.id)
    &&& (c.controller_buffer[model::owned_size(cs.take(k), c.id) + j] >> b) & 1 == 1
}

/// A bit of a frame is set exactly where one of those who play on the controller sets it.
pub proof fn law_frame_bits(
    clients: Seq<ClientView>,
    cs: Seq<ControllerView>,
    k: int,
    j: int,
    b: u8,
)
    requires
        forall|i: int|
            0 <= i < clients.len() ==> (#[trigger] clients[i]).controller_buffer.len()
                >= model::owned_size(cs, clients[i].id),
        0 <= k < cs.len(),
        0 <= j < cs[k].size,
        b < 8,
    ensures
        (model::merged(clients, cs)[model::total_size(cs.take(k)) + j] >> b) & 1 == 1
            <==> exists|i: int| 0 <= i < clients.len() && sets_bit(#[trigger] clients[i], cs, k, j, b),
    decreases clients.len(),
{
    let p = model::total_size(cs.take(k)) + j;
    proofs::lemma_take_next(cs, k, 0);
    proofs::lemma_take_bounded(cs, k + 1, 0);
    assert((0u8 >> b) & 1 == 0) by (bit_vector);
    if clients.len() > 0 {
        let front = clients.drop_last();
        let c = clients[clients.len() - 1];
        assert forall|i: int| 0 <= i < front.len() implies #[trigger] front[i] == clients[i] by {}
        law_frame_bits(front, cs, k, j, b);
        laws::lemma_merged_len(front, cs);
        laws::lemma_spread_byte(cs, c.id, c.controller_buffer, k, j);
        let x = model::merged(front, cs)[p];
        let y = model::spread(cs, c.id, c.controller_buffer)[p];
        assert(((x | y) >> b) & 1 == 1 <==> (x >> b) & 1 == 1 || (y >> b) & 1 == 1) by (bit_vector);
        if (x >> b) & 1 == 1 {
            let i = choose|i: int| 0 <= i < front.len() && sets_bit(#[trigger] front[i], cs, k, j, b);
            assert(sets_bit(clients[i], cs, k, j, b));
        }
        if exists|i: int| 0 <= i < clients.len() && sets_bit(#[trigger] clients[i], cs, k, j, b) {
            let i = choose|i: int|
                0 <= i < clients.len() && sets_bit(#[trigger] clients[i], cs, k, j, b);
            if i < front.len() {
                assert(sets_bit(front[i], cs, k, j, b));
            }
        }
    }
}

/// Once a frame has gone out, exactly those clients stay, unchanged, who were not dead and whom it
/// reached.
pub proof fn law_the_reached_stay(state: LoopView, reached: Seq<bool>, i: int)
    requires
        state.wf(),
        state.accepts(EventView::Sent(reached)),
        0 <= i < state.room.clients.len(),
    ensures
        state.next(EventView::Sent(reached)).room.clients.contains(state.room.clients[i])
            <==> !state.room.clients[i].dead && reached[i],
{
    let before = state.room.clients;
    let mid = state.room.with_unreached(reached);
    laws::law_only_the_dead_leave(mid, before[i], 0, 0);
    if mid.clients.contains(before[i]) {
        let m = choose|m: int| 0 <= m < mid.clients.len() && mid.clients[m] == before[i];
        assert(before[m].id == before[i].id);
        assert(m == i);
    }
    if !before[i].dead && reached[i] {
        assert(mid.clients[i] == before[i]);
    }
}

/// Those who stay once a frame has gone out keep their order.
pub proof fn law_the_reached_keep_their_order(state: LoopView, reached: Seq<bool>, i: int, j: int)
    requires
        state.wf(),
        state.accepts(EventView::Sent(reached)),
        0 <= i < j < state.room.clients.len(),
        !state.room.clients[i].dead && reached[i],
        !state.room.clients[j].dead && reached[j],
    ensures
        ({
            let after = state.next(EventView::Sent(reached)).room.clients;
            exists|p: int, q: int|
                0 <= p < q < after.len() && #[trigger] after[p] == state.room.clients[i]
                    && #[trigger] after[q] == state.room.clients[j]
        }),
{
    let before = state.room.clients;
    let mid = state.room.with_unreached(reached);
    assert(mid.clients[i] == before[i] && mid.clients[j] == before[j]);
    lemma_living_in_order(mid.clients, i, j);
}

/// A client counts as dead once a frame has gone out exactly if it did before or the frame did not
/// reach it; nothing else about it or the room changes.
pub proof fn law_unreached_count_as_dead(room: RoomView, reached: Seq<bool>, i: int)
    requires
        reached.len() == room.clients.len(),
        0 <= i < room.clients.len(),
    ensures
        ({
            let after = room.with_unreached(reached);
            &&& after.clients.len() == room.clients.len()
            &&& after.clients[i].dead <==> room.clients[i].dead || !reached[i]
            &&& after.clients[i].id == room.clients[i].id
            &&& after.clients[i].nickname == room.clients[i].nickname
            &&& after.clients[i].controller_buffer == room.clients[i].controller_buffer
            &&& after.controllers == room.controllers
            &&& after.game_info == room.game_info
            &&& after.rate == room.rate
        }),
{
}

/// Taking the dead out keeps the order of the others.
pub proof fn law_taking_out_keeps_order(room: RoomView, i: int, j: int)
    requires
        0 <= i < j < room.clients.len(),
        !room.clients[i].dead,
        !room.clients[j].dead,
    ensures
        ({
            let after = room.without_dead().clients;
            exists|p: int, q: int|
                0 <= p < q < after.len() && #[trigger] after[p] == room.clients[i]
                    && #[trigger] after[q] == room.clients[j]
        }),
{
    let after = room.without_dead().clients;
    assert(after == model::living(room.clients));
    lemma_living_in_order(room.clients, i, j);
}

/// Taking the dead out leaves the sizes of the controllers, the game and the rate alone.
pub proof fn law_taking_out_keeps_the_game(room: RoomView, k: int)
    ensures
        ({
            let after = room.without_dead();
            &&& after.controllers.len() == room.controllers.len()
            &&& 0 <= k < room.controllers.len() ==> after.controllers[k].size
                == room.controllers[k].size
            &&& after.game_info == room.game_info
            &&& after.rate == room.rate
        }),
{
}

/// Nobody comes in while a frame goes out: whoever is in the room afterwards was there before, was
/// not dead and was reached, and is there once. The game and the rate stay.
pub proof fn law_nobody_comes_with_a_frame(state: LoopView, reached: Seq<bool>, p: int, q: int)
    requires
        state.wf(),
        state.accepts(EventView::Sent(reached)),
        0 <= p < state.next(EventView::Sent(reached)).room.clients.len(),
    ensures
        ({
            let before = state.room.clients;
            let after = state.next(EventView::Sent(reached)).room;
            &&& exists|i: int|
                0 <= i < before.len() && #[trigger] before[i] == after.clients[p] && !before[i].dead
                    && reached[i]
            &&& p < q < after.clients.len() ==> after.clients[p].id != after.clients[q].id
            &&& after.game_info == state.room.game_info
            &&& after.rate == state.room.rate
        }),
{
    let event = EventView::Sent(reached);
    let mid = state.room.with_unreached(reached);
    let after = state.next(event).room.clients;
    laws::law_running_room_stays_well_formed(state, event);
    assert(after.contains(after[p]));
    laws::law_only_the_dead_leave(mid, after[p], 0, 0);
    let i = choose|i: int| 0 <= i < mid.clients.len() && mid.clients[i] == after[p];
    assert(state.room.clients[i] == after[p]);
}

/// Somebody stays on a controller once a frame has gone out exactly if they were on it and none of
/// the dead and unreached has their id. Its size stays.
pub proof fn law_the_reached_keep_their_controllers(
    state: LoopView,
    reached: Seq<bool>,
    k: int,
    id: usize,
)
    requires
        state.wf(),
        state.accepts(EventView::Sent(reached)),
        0 <= k < state.room.controllers.len(),
    ensures
        ({
            let before = state.room;
            let after = state.next(EventView::Sent(reached)).room;
            &&& after.controllers.len() == before.controllers.len()
            &&& after.controllers[k].size == before.controllers[k].size
            &&& after.controllers[k].owners.len() <= 1
            &&& after.controllers[k].owners.contains(id) <==> {
                &&& before.controllers[k].owners.contains(id)
                &&& forall|i: int|
                    0 <= i < before.clients.len() && (#[trigger] before.clients[i]).id == id
                        ==> !before.clients[i].dead && reached[i]
            }
        }),
{
    let event = EventView::Sent(reached);
    let before = state.room;
    let mid = before.with_unreached(reached);
    laws::law_running_room_stays_well_formed(state, event);
    laws::law_only_the_dead_leave(mid, mid.clients[0], k, id);
    assert forall|i: int| 0 <= i < before.clients.len() implies (#[trigger] before.clients[i]).id
        == mid.clients[i].id && (mid.clients[i].dead <==> before.clients[i].dead || !reached[i]) by {}
    if model::is_dead(mid.clients, id) {
        let d = choose|d: int|
            0 <= d < mid.clients.len() && (#[trigger] mid.clients[d]).id == id
                && mid.clients[d].dead;
        assert(before.clients[d].id == id);
    }
    if exists|i: int|
        0 <= i < before.clients.len() && (#[trigger] before.clients[i]).id == id && (
        before.clients[i].dead || !reached[i]) {
        let i = choose|i: int|
            0 <= i < before.clients.len() && (#[trigger] before.clients[i]).id == id && (
            before.clients[i].dead || !reached[i]);
        assert(mid.clients[i].id == id && mid.clients[i].dead);
    }
}

proof fn lemma_living_in_order(clients: Seq<ClientView>, i: int, j: int)
    requires
        0 <= i < j < clients.len(),
        !clients[i].dead,
        !clients[j].dead,
    ensures
        exists|p: int, q: int|
            0 <= p < q < model::living(clients).len() && #[trigger] model::living(clients)[p]
                == clients[i] && #[trigger] model::living(clients)[q] == clients[j],
    decreases clients.len(),
{
    let n = clients.len() - 1;
    let front = clients.drop_last();
    let all = model::living(clients);
    proofs::lemma_living_next(clients, n);
    assert(clients.take(n) =~= front);
    assert(clients.take(n + 1) =~= clients);
    if j == n {
        proofs::lemma_living(front);
        assert(front.contains(clients[i])) by {
            assert(front[i] == clients[i]);
        }
        assert(model::living(front).contains(clients[i]));
        let p = choose|p: int|
            0 <= p < model::living(front).len() && model::living(front)[p] == clients[i];
        assert(all[p] == clients[i] && all[all.len() - 1] == clients[j]);
    } else {
        lemma_living_in_order(front, i, j);
        let (p, q) = choose|p: int, q: int|
            0 <= p < q < model::living(front).len() && #[trigger] model::living(front)[p]
                == front[i] && #[trigger] model::living(front)[q] == front[j];
        assert(all[p] == clients[i] && all[q] == clients[j]);
    }
}

/// The contents of an effect are those of all its fields.
pub proof fn law_effect_contents(effect: Effect, effects: Seq<Effect>, i: int)
    ensures
        effect matches Effect::InputSize { to, size } ==> effect@ == (EffectView::InputSize {
            to,
            size: size as nat,
        }),
        effect matches Effect::Send { to, message } ==> effect@ == (EffectView::Send {
            to,
            message: message@,
        }),
        effect matches Effect::Reply(Ok(())) ==> effect@ == EffectView::Reply(Ok(())),
        effect matches Effect::Reply(Err(reason)) ==> effect@ == EffectView::Reply(Err(reason@)),
        effect matches Effect::SetRate(n) ==> effect@ == EffectView::SetRate(n),
        effect matches Effect::Log(line) ==> effect@ == EffectView::Log(line@),
        room::effects_view(effects).len() == effects.len(),
        0 <= i < effects.len() ==> room::effects_view(effects)[i] == effects[i]@,
{
}

/// The contents of an event are those of all its fields.
pub proof fn law_event_contents(event: RoomEvent, i: int)
    ensures
        event is Tick <==> event@ is Tick,
        event is NoJoin <==> event@ is NoJoin,
        event is NoCommand <==> event@ is NoCommand,
        event matches RoomEvent::Join(request) ==> event@ == EventView::Join(request@),
        event matches RoomEvent::Command(command) ==> event@ == EventView::Command(command@),
        event matches RoomEvent::Inputs(given) ==> event@ is Inputs && event@->Inputs_0.len()
            == given@.len() && (0 <= i < given@.len() ==> event@->Inputs_0[i] == given@[i]@),
        event matches RoomEvent::Sent(reached) ==> event@ == EventView::Sent(reached@),
{
}

/// The contents of a controller are its size and its owners.
pub proof fn law_controller_contents(c: ControllerData)
    ensures
        c@.size == c.size,
        c@.owners == c.owners@,
{
}

/// What a room makes of fresh inputs: each becomes that of the client at its position, and nothing
/// else changes.
pub proof fn law_room_takes_inputs(room: &mut Room, inputs: Vec<Vec<u8>>, i: int)
    requires
        inputs@.len() == room@.clients.len(),
        0 <= i < inputs@.len(),
        call_ensures(Room::take_inputs, (room, inputs), ()),
    ensures
        ({
            let before = old(room)@;
            let after = final(room)@;
            &&& after.clients.len() == before.clients.len()
            &&& after.clients[i].controller_buffer == inputs@[i]@
            &&& after.clients[i].id == before.clients[i].id
            &&& after.clients[i].dead == before.clients[i].dead
            &&& after.clients[i].nickname == before.clients[i].nickname
            &&& after.controllers == before.controllers
            &&& after.game_info == before.game_info
            &&& after.rate == before.rate
        }),
{
}

/// What a running room makes of the inputs of a round: one frame to each client, in their order, in
/// which each controller has the bytes that the client who plays on it has given for it in this
/// round.
pub proof fn law_running_room_sends_the_inputs(
    running: &mut RoomLoop,
    inputs: Vec<Vec<u8>>,
    effects: Vec<Effect>,
    i: int,
    k: int,
    m: int,
)
    requires
        running@.wf(),
        running@.accepts(RoomEvent::Inputs(inputs)@),
        0 <= i < running@.room.clients.len(),
        0 <= m < running@.room.clients.len(),
        0 <= k < running@.room.controllers.len(),
        running@.room.controllers[k].owners.contains(running@.room.clients[i].id),
        call_ensures(RoomLoop::run_loop, (running, RoomEvent::Inputs(inputs)), effects),
    ensures
        ({
            let room = old(running)@.room;
            let cs = room.controllers;
            let at = model::total_size(cs.take(k)) as int;
            let from = model::owned_size(cs.take(k), room.clients[i].id) as int;
            let size = cs[k].size as int;
            &&& final(running)@.room.clients[i].controller_buffer == inputs@[i]@
            &&& effects@.len() == room.clients.len()
            &&& effects@[m] matches Effect::Send { to, message: Message::AllGamepads(frame) }
            &&& to == room.clients[m].id
            &&& frame@.len() == model::total_size(cs)
            &&& at + size <= frame@.len()
            &&& from + size <= inputs@[i]@.len()
            &&& frame@.subrange(at, at + size) == inputs@[i]@.subrange(from, from + size)
        }),
{
    let state = old(running)@;
    let event = RoomEvent::Inputs(inputs);
    let given = event@->Inputs_0;
    law_event_contents(event, i);
    law_inputs_are_taken(state, given, i);
    law_frame_carries_the_inputs(state, given, i, k, m);
    law_effect_contents(effects@[m], effects@, m);
}

} // verus!
