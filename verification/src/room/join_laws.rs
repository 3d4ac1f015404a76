use vstd::arithmetic::power2;
use vstd::prelude::*;

use crate::bytes;
use crate::room;
use crate::room::laws;
use crate::room::model;
use crate::room::model::{ControllerView, EffectView, RoomView};
use crate::room::proofs;
use crate::room::run_loop::{Phase, RoomLoop};
use crate::room::Effect;
use crate::types::{ClientView, GameInfo, JoinRequest, JoinView, MessageView, PayloadView};

verus! {

/// Sizes and counts add up: those of two runs of controllers together are the sums of both, and
/// those of one controller are its own.
pub proof fn law_controllers_add_up(
    a: Seq<ControllerView>,
    b: Seq<ControllerView>,
    c: ControllerView,
    id: usize,
)
    ensures
        model::total_size(Seq::<ControllerView>::empty()) == 0,
        model::owned_size(Seq::<ControllerView>::empty(), id) == 0,
        model::unowned(Seq::<ControllerView>::empty()) == 0,
        model::total_size(seq![c]) == c.size,
        c.owners.contains(id) ==> model::owned_size(seq![c], id) == c.size,
        !c.owners.contains(id) ==> model::owned_size(seq![c], id) == 0,
        c.owners.len() == 0 ==> model::unowned(seq![c]) == 1,
        c.owners.len() > 0 ==> model::unowned(seq![c]) == 0,
        model::total_size(a + b) == model::total_size(a) + model::total_size(b),
        model::owned_size(a + b, id) == model::owned_size(a, id) + model::owned_size(b, id),
        model::unowned(a + b) == model::unowned(a) + model::unowned(b),
    decreases b.len(),
{
    assert(seq![c].drop_last() =~= Seq::<ControllerView>::empty());
    if b.len() == 0 {
        assert(a + b =~= a);
    } else {
        law_controllers_add_up(a, b.drop_last(), c, id);
        assert((a + b).drop_last() =~= a + b.drop_last());
        assert((a + b).last() == b.last());
    }
}

/// A room is opened with the controllers of its game, all of them free, with nobody in it, and at
/// the rate that nobody has set.
pub proof fn law_room_opens_empty(game_info: GameInfo, k: int)
    ensures
        ({
            let room = RoomView::empty(game_info);
            &&& room.clients.len() == 0
            &&& room.game_info == game_info
            &&& room.rate == 1008307711
            &&& room.controllers.len() == game_info.total_controllers
            &&& 0 <= k < game_info.total_controllers ==> {
                &&& room.controllers[k].size == game_info.controller_data_size@[k]
                &&& room.controllers[k].owners.len() == 0
            }
        }),
{
}

/// A request is turned down for want of a place where 32 clients are in the room, else for its game
/// where that differs, and else not at all; and whoever is turned down learns why.
pub proof fn law_join_is_refused_exactly(room: RoomView, request: JoinView)
    ensures
        room.clients.len() >= 32 ==> room.join_effects(request) == seq![
            EffectView::Reply(Err("Sorry, game is full."@)),
        ] && room.after_join(request) == room,
        room.clients.len() < 32 && request.game_info != room.game_info ==> room.join_effects(
            request,
        ) == seq![EffectView::Reply(Err("Your game info is invalid."@))] && room.after_join(request)
            == room,
        room.refusal(request) is None <==> room.clients.len() < 32 && request.game_info
            == room.game_info,
        room.refusal(request) is None ==> room.join_effects(request) == room.client_effects(request)
            && room.after_join(request) == room.with_client(request),
{
}

/// A newcomer goes behind everybody else with the name, the input and the state that it came
/// with, and with an id just above the largest in use, or 1. The others, the game and the rate
/// stay.
pub proof fn law_newcomer_goes_last(room: RoomView, request: JoinView, i: int)
    requires
        model::next_id(room.clients) <= usize::MAX,
    ensures
        ({
            let after = room.with_client(request);
            let n = room.clients.len() as int;
            &&& after.clients.len() == n + 1
            &&& 0 <= i < n ==> after.clients[i] == room.clients[i]
            &&& after.clients[n].nickname == request.client.nickname
            &&& after.clients[n].controller_buffer == request.client.controller_buffer
            &&& after.clients[n].dead == request.client.dead
            &&& 0 <= i < n ==> room.clients[i].id < after.clients[n].id
            &&& after.clients[n].id == 1 || exists|m: int|
                0 <= m < n && (#[trigger] room.clients[m]).id + 1 == after.clients[n].id
            &&& after.game_info == room.game_info
            &&& after.rate == room.rate
        }),
{
    proofs::lemma_max_id(room.clients);
    lemma_max_id_is_used(room.clients);
}

proof fn lemma_max_id_is_used(clients: Seq<ClientView>)
    ensures
        model::max_id(clients) == 0 || exists|m: int|
            0 <= m < clients.len() && (#[trigger] clients[m]).id == model::max_id(clients),
    decreases clients.len(),
{
    if clients.len() > 0 {
        let front = clients.drop_last();
        lemma_max_id_is_used(front);
        if clients.last().id > model::max_id(front) {
            assert(clients[clients.len() - 1].id == model::max_id(clients));
        } else if model::max_id(front) > 0 {
            let m = choose|m: int|
                0 <= m < front.len() && (#[trigger] front[m]).id == model::max_id(front);
            assert(clients[m].id == model::max_id(clients));
        }
    }
}

/// An id is left for a newcomer exactly as long as nobody has the largest id there is.
pub proof fn law_ids_run_out_at_the_end_alone(room: RoomView)
    ensures
        model::next_id(room.clients) <= usize::MAX <==> forall|i: int|
            0 <= i < room.clients.len() ==> (#[trigger] room.clients[i]).id < usize::MAX,
{
    proofs::lemma_max_id(room.clients);
    lemma_max_id_is_used(room.clients);
}

/// A newcomer takes the first controllers that are free, as many as it asked for; all others, and
/// all sizes, stay.
pub proof fn law_newcomer_takes_first_free(room: RoomView, request: JoinView, k: int)
    requires
        model::next_id(room.clients) <= usize::MAX,
        0 <= k < room.controllers.len(),
    ensures
        ({
            let after = room.with_client(request);
            let id = after.clients[room.clients.len() as int].id;
            let c = room.controllers[k];
            &&& after.controllers.len() == room.controllers.len()
            &&& after.controllers[k].size == c.size
            &&& c.owners.len() > 0 ==> after.controllers[k].owners == c.owners
            &&& c.owners.len() == 0 && model::unowned(room.controllers.take(k))
                < request.local_players ==> after.controllers[k].owners == seq![id]
            &&& c.owners.len() == 0 && model::unowned(room.controllers.take(k))
                >= request.local_players ==> after.controllers[k].owners.len() == 0
        }),
{
}

/// What follows from taking a client in: first it learns how many bytes its controllers take; then
/// all clients hear of it in their order, itself last; then its request is answered.
///
/// They hear under one code if they are in the room already, and under another if they are the
/// newcomer: a number, four zeros and the newcomer's name. Bit `k` of the number is set exactly
/// where the newcomer plays on controller `k`.
pub proof fn law_newcomer_is_announced(room: RoomView, request: JoinView, m: int, k: int)
    requires
        room.sized(),
        model::next_id(room.clients) <= usize::MAX,
        0 <= m <= room.clients.len(),
        0 <= k,
    ensures
        ({
            let after = room.with_client(request);
            let n = room.clients.len() as int;
            let id = after.clients[n].id;
            let name = request.client.nickname;
            let effects = room.client_effects(request);
            &&& effects.len() == n + 3
            &&& effects[0] == (EffectView::InputSize {
                to: id,
                size: model::owned_size(after.controllers, id),
            })
            &&& effects[n + 2] == EffectView::Reply(Ok(()))
            &&& effects[m + 1] matches EffectView::Send { to, message: MessageView::Command(news) }
            &&& to == after.clients[m].id
            &&& m < n ==> news.cmd == 0xA0
            &&& m == n ==> news.cmd == 0xB0
            &&& news.payload matches PayloadView::Data(notice)
            &&& notice.len() == 8 + name.len()
            &&& notice[4] == 0 && notice[5] == 0 && notice[6] == 0 && notice[7] == 0
            &&& notice.skip(8) == name
            &&& ((notice[0] + 256 * notice[1] + 65536 * notice[2] + 16777216 * notice[3])
                / power2::pow2(k as nat) as int) % 2 == 1 <==> k < after.controllers.len()
                && after.controllers[k].owners.contains(id)
        }),
{
    let after = room.with_client(request);
    let n = room.clients.len() as int;
    let id = after.clients[n].id;
    let mps = model::mps_bits(after.controllers, id);
    laws::law_everybody_learns_of_newcomer(room, request, m);
    laws::law_mps_bit(after.controllers, id, k);
    laws::lemma_mps_below(after.controllers, id);
    power2::lemma2_to64();
    if after.controllers.len() < 16 {
        power2::lemma_pow2_strictly_increases(after.controllers.len(), 16);
    }
    bytes::law_le_bytes_weigh(mps, Seq::empty());
    let notice = model::join_notice(mps, request.client.nickname);
    assert(notice.skip(8) =~= request.client.nickname);
    assert(mps % 0x1_0000_0000 == mps);
}

/// A room starts with its first client, under the id 1, on the first controllers of the game, as
/// many as it asks for and there are; it waits for a tick, at the rate that nobody has set.
pub proof fn law_room_starts_with_its_first_client(
    request: JoinRequest,
    r: (RoomLoop, Vec<Effect>),
    k: int,
)
    requires
        call_ensures(RoomLoop::start, (request,), r),
    ensures
        ({
            let info = request.game_info;
            let room = r.0@.room;
            &&& r.0@.phase == Phase::Tick
            &&& room.clients.len() == 1
            &&& room.clients[0].id == 1
            &&& room.clients[0].dead == request.client_data.dead
            &&& room.clients[0].nickname == request.client_data.nickname@
            &&& room.clients[0].controller_buffer == request.client_data.controller_buffer@
            &&& room.game_info == info
            &&& room.rate == 1008307711
            &&& room.controllers.len() == info.total_controllers
            &&& 0 <= k < info.total_controllers ==> {
                &&& room.controllers[k].size == info.controller_data_size@[k]
                &&& k < request.local_players ==> room.controllers[k].owners == seq![1usize]
                &&& k >= request.local_players ==> room.controllers[k].owners.len() == 0
            }
            &&& room::effects_view(r.1@) == RoomView::empty(info).client_effects(request@)
        }),
{
    let empty = RoomView::empty(request.game_info);
    if 0 <= k < request.game_info.total_controllers {
        lemma_all_free(empty.controllers.take(k));
    }
}

proof fn lemma_all_free(cs: Seq<ControllerView>)
    requires
        forall|k: int| 0 <= k < cs.len() ==> (#[trigger] cs[k]).owners.len() == 0,
    ensures
        model::unowned(cs) == cs.len(),
    decreases cs.len(),
{
    if cs.len() > 0 {
        lemma_all_free(cs.drop_last());
        assert(cs.last() == cs[cs.len() - 1]);
    }
}

} // verus!
