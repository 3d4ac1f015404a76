use vstd::arithmetic::power2;
use vstd::prelude::*;

use crate::bytes;
use crate::room::model;
use crate::room::model::{ControllerView, EffectView, RoomView};
use crate::room::proofs;
use crate::room::run_loop::{EventView, LoopView, Phase};
use crate::types::commands;
use crate::types::{
    ClientView, CommandView, JoinView, MessageView, PayloadView, MAX_CLIENTS_PER_GAME,
};

verus! {

/// How many controllers the client `id` plays on.
pub open spec fn played_by(cs: Seq<ControllerView>, id: usize) -> nat
    decreases cs.len(),
{
    if cs.len() == 0 {
        0
    } else {
        played_by(cs.drop_last(), id) + if cs.last().owners.contains(id) {
            1nat
        } else {
            0
        }
    }
}

/// A newcomer gets an id that nobody in the room has, larger than all of theirs.
pub proof fn law_newcomer_id_is_fresh(room: RoomView)
    ensures
        model::next_id(room.clients) >= 1,
        forall|i: int|
            0 <= i < room.clients.len() ==> (#[trigger] room.clients[i]).id < model::next_id(
                room.clients,
            ),
{
    proofs::lemma_max_id(room.clients);
}

/// A request that is turned down changes nothing in the room, and is answered with the reason and
/// nothing else. It is turned down exactly where the room is full or the game differs.
pub proof fn law_refused_join_changes_nothing(room: RoomView, request: JoinView)
    ensures
        room.refusal(request) is Some <==> room.clients.len() >= MAX_CLIENTS_PER_GAME
            || request.game_info != room.game_info,
        room.refusal(request) matches Some(reason) ==> room.after_join(request) == room
            && room.join_effects(request) == seq![EffectView::Reply(Err(reason))],
{
}

/// A room never holds more clients than there is place for.
pub proof fn law_capacity_is_kept(room: RoomView, request: JoinView)
    requires
        room.clients.len() <= MAX_CLIENTS_PER_GAME,
    ensures
        room.after_join(request).clients.len() <= MAX_CLIENTS_PER_GAME,
{
}

proof fn lemma_assigned_count(cs: Seq<ControllerView>, id: usize, n: nat, k: int)
    requires
        0 <= k <= cs.len(),
        forall|j: int| 0 <= j < cs.len() ==> !(#[trigger] cs[j]).owners.contains(id),
    ensures
        played_by(model::assign(cs, id, n).take(k), id) == if model::unowned(cs.take(k)) < n {
            model::unowned(cs.take(k))
        } else {
            n
        },
    decreases k,
{
    let after = model::assign(cs, id, n);
    if k > 0 {
        lemma_assigned_count(cs, id, n, k - 1);
        proofs::lemma_take_next(cs, k - 1, id);
        assert(after.take(k).drop_last() =~= after.take(k - 1));
        assert(after.take(k).last() == after[k - 1]);
        assert(seq![id].contains(id)) by {
            assert(seq![id][0] == id);
        }
    }
}

/// A newcomer plays on as many controllers as it asked for, or on all that were free if these are
/// fewer.
pub proof fn law_newcomer_gets_free_controllers(room: RoomView, request: JoinView)
    requires
        room.wf(),
        model::next_id(room.clients) <= usize::MAX,
    ensures
        played_by(
            room.with_client(request).controllers,
            model::next_id(room.clients) as usize,
        ) == if model::unowned(room.controllers) < request.local_players {
            model::unowned(room.controllers)
        } else {
            request.local_players
        },
{
    let id = model::next_id(room.clients) as usize;
    let cs = room.controllers;
    lemma_newcomer_owns_nothing(room);
    lemma_assigned_count(cs, id, request.local_players, cs.len() as int);
    assert(cs.take(cs.len() as int) =~= cs);
    let after = model::assign(cs, id, request.local_players);
    assert(after.take(cs.len() as int) =~= after);
}

proof fn lemma_newcomer_owns_nothing(room: RoomView)
    requires
        room.wf(),
        model::next_id(room.clients) <= usize::MAX,
    ensures
        forall|k: int|
            0 <= k < room.controllers.len() ==> !(#[trigger] room.controllers[k]).owners.contains(
                model::next_id(room.clients) as usize,
            ),
{
    let id = model::next_id(room.clients) as usize;
    proofs::lemma_max_id(room.clients);
    assert forall|k: int| 0 <= k < room.controllers.len() implies !(
    #[trigger] room.controllers[k]).owners.contains(id) by {
        if room.controllers[k].owners.contains(id) {
            let i = choose|i: int|
                0 <= i < room.clients.len() && (#[trigger] room.clients[i]).id == id;
            assert(false);
        }
    }
}

/// A controller that somebody plays on stays with them when others join.
pub proof fn law_join_takes_nothing_away(room: RoomView, request: JoinView, k: int)
    requires
        0 <= k < room.controllers.len(),
        room.controllers[k].owners.len() > 0,
    ensures
        room.after_join(request).controllers[k] == room.controllers[k],
{
}

/// The controllers agree on who plays where, as far as the client `id` goes.
spec fn agree_on(a: Seq<ControllerView>, b: Seq<ControllerView>, id: usize) -> bool {
    &&& a.len() == b.len()
    &&& forall|k: int|
        0 <= k < a.len() ==> (#[trigger] a[k]).size == b[k].size && a[k].owners.contains(id)
            == b[k].owners.contains(id)
}

proof fn lemma_agree(a: Seq<ControllerView>, b: Seq<ControllerView>, id: usize)
    requires
        agree_on(a, b, id),
    ensures
        model::total_size(a) == model::total_size(b),
        model::owned_size(a, id) == model::owned_size(b, id),
        model::mps_bits(a, id) == model::mps_bits(b, id),
    decreases a.len(),
{
    if a.len() > 0 {
        assert(a.last() == a[a.len() - 1] && b.last() == b[b.len() - 1]);
        assert forall|k: int| 0 <= k < a.drop_last().len() implies (
        #[trigger] a.drop_last()[k]).size == b.drop_last()[k].size
            && a.drop_last()[k].owners.contains(id) == b.drop_last()[k].owners.contains(id) by {
            assert(a.drop_last()[k] == a[k] && b.drop_last()[k] == b[k]);
        }
        lemma_agree(a.drop_last(), b.drop_last(), id);
    }
}

/// Those who are already in the room keep the size of their input and the set of their
/// controllers when somebody joins.
pub proof fn law_join_leaves_others_alone(room: RoomView, request: JoinView, i: int)
    requires
        room.wf(),
        room.refusal(request) is None ==> model::next_id(room.clients) <= usize::MAX,
        0 <= i < room.clients.len(),
    ensures
        room.after_join(request).clients[i] == room.clients[i],
        model::owned_size(room.after_join(request).controllers, room.clients[i].id)
            == model::owned_size(room.controllers, room.clients[i].id),
        model::mps_bits(room.after_join(request).controllers, room.clients[i].id)
            == model::mps_bits(room.controllers, room.clients[i].id),
{
    let id = room.clients[i].id;
    let after = room.after_join(request);
    proofs::lemma_max_id(room.clients);
    assert forall|k: int| 0 <= k < room.controllers.len() implies (
    #[trigger] after.controllers[k]).size == room.controllers[k].size
        && after.controllers[k].owners.contains(id) == room.controllers[k].owners.contains(id) by {
        if after.controllers[k] != room.controllers[k] {
            assert(!room.controllers[k].owners.contains(id));
            assert(after.controllers[k].owners.len() == 1);
        }
    }
    assert(agree_on(after.controllers, room.controllers, id));
    lemma_agree(after.controllers, room.controllers, id);
}

/// As long as every client has given enough input, they all still have once somebody joins who
/// brings enough for a whole frame.
pub proof fn law_join_keeps_buffers_fitting(room: RoomView, request: JoinView)
    requires
        room.wf(),
        room.buffers_fit(),
        room.refusal(request) is None ==> model::next_id(room.clients) <= usize::MAX,
        request.client.controller_buffer.len() >= model::total_size(room.controllers),
    ensures
        room.after_join(request).buffers_fit(),
{
    if room.refusal(request) is None {
        let after = room.with_client(request);
        proofs::lemma_with_client_wf(room, request);
        assert forall|i: int| 0 <= i < after.clients.len() implies (
        #[trigger] after.clients[i]).controller_buffer.len() >= model::owned_size(
            after.controllers,
            after.clients[i].id,
        ) by {
            if i < room.clients.len() {
                law_join_leaves_others_alone(room, request, i);
            } else {
                law_frame_size_is_fixed(room, after);
                proofs::lemma_sizes_bounded(after.controllers, after.clients[i].id);
            }
        }
    }
}

/// The size of a frame depends on the game alone.
pub proof fn law_frame_size_is_fixed(a: RoomView, b: RoomView)
    requires
        a.sized(),
        b.sized(),
        a.game_info == b.game_info,
    ensures
        model::total_size(a.controllers) == model::total_size(b.controllers),
{
    lemma_same_sizes(a.controllers, b.controllers);
}

proof fn lemma_same_sizes(a: Seq<ControllerView>, b: Seq<ControllerView>)
    requires
        a.len() == b.len(),
        forall|k: int| 0 <= k < a.len() ==> (#[trigger] a[k]).size == b[k].size,
    ensures
        model::total_size(a) == model::total_size(b),
    decreases a.len(),
{
    if a.len() > 0 {
        assert(a.last() == a[a.len() - 1] && b.last() == b[b.len() - 1]);
        assert forall|k: int| 0 <= k < a.drop_last().len() implies (
        #[trigger] a.drop_last()[k]).size == b.drop_last()[k].size by {
            assert(a.drop_last()[k] == a[k] && b.drop_last()[k] == b[k]);
        }
        lemma_same_sizes(a.drop_last(), b.drop_last());
    }
}

/// The newcomer is told that it has joined, and everybody else that a player has; all of them get
/// the same notice.
pub proof fn law_everybody_learns_of_newcomer(room: RoomView, request: JoinView, i: int)
    requires
        model::next_id(room.clients) <= usize::MAX,
        0 <= i <= room.clients.len(),
    ensures
        room.client_effects(request).len() == room.clients.len() + 3,
        room.client_effects(request)[i + 1] == (EffectView::Send {
            to: room.with_client(request).clients[i].id,
            message: MessageView::Command(
                CommandView {
                    cmd: if i < room.clients.len() {
                        commands::PLAYERJOINED
                    } else {
                        commands::YOUJOINED
                    },
                    payload: PayloadView::Data(
                        model::join_notice(
                            model::mps_bits(
                                room.with_client(request).controllers,
                                model::next_id(room.clients) as usize,
                            ),
                            request.client.nickname,
                        ),
                    ),
                },
            ),
        }),
{
    proofs::lemma_max_id(room.clients);
}

pub(crate) proof fn lemma_mps_below(cs: Seq<ControllerView>, id: usize)
    ensures
        model::mps_bits(cs, id) < power2::pow2(cs.len()),
    decreases cs.len(),
{
    if cs.len() > 0 {
        lemma_mps_below(cs.drop_last(), id);
        power2::lemma_pow2_unfold(cs.len());
    } else {
        power2::lemma2_to64();
    }
}

/// Bit `k` of the number that stands for a client's controllers is set exactly where the client
/// plays on controller `k`.
pub proof fn law_mps_bit(cs: Seq<ControllerView>, id: usize, k: int)
    requires
        0 <= k,
    ensures
        (model::mps_bits(cs, id) / power2::pow2(k as nat)) % 2 == 1 <==> k < cs.len()
            && cs[k].owners.contains(id),
    decreases cs.len(),
{
    let m = model::mps_bits(cs, id);
    power2::lemma_pow2_pos(k as nat);
    lemma_mps_below(cs, id);
    if k >= cs.len() {
        if k > cs.len() {
            power2::lemma_pow2_strictly_increases(cs.len(), k as nat);
        }
        vstd::arithmetic::div_mod::lemma_basic_div(m as int, power2::pow2(k as nat) as int);
    } else {
        let front = cs.drop_last();
        let top = (cs.len() - 1) as nat;
        let f = model::mps_bits(front, id);
        lemma_mps_below(front, id);
        law_mps_bit(front, id, k);
        if k < top {
            assert(front[k] == cs[k]);
            if cs.last().owners.contains(id) {
                let p = power2::pow2(k as nat) as int;
                let q = power2::pow2((top - k - 1) as nat) as int;
                assert(power2::pow2(top) == 2 * q * p) by {
                    power2::lemma_pow2_adds(k as nat, (top - k) as nat);
                    power2::lemma_pow2_unfold((top - k) as nat);
                    assert(p * (2 * q) == 2 * q * p) by (nonlinear_arith);
                }
                assert(m == p * (2 * q) + f) by {
                    assert(p * (2 * q) == 2 * q * p) by (nonlinear_arith);
                }
                vstd::arithmetic::div_mod::lemma_hoist_over_denominator(f as int, 2 * q, p as nat);
                assert(m as int / p == f as int / p + 2 * q);
                assert((f as int / p + 2 * q) % 2 == (f as int / p) % 2);
            }
        } else {
            let p = power2::pow2(top) as int;
            if cs.last().owners.contains(id) {
                assert(m == f + p);
                assert(m as int / p == 1) by (nonlinear_arith)
                    requires
                        m == f + p,
                        0 <= f < p,
                ;
            } else {
                vstd::arithmetic::div_mod::lemma_basic_div(m as int, p);
            }
        }
    }
}

pub(crate) proof fn lemma_spread(cs: Seq<ControllerView>, id: usize, buf: Seq<u8>)
    requires
        buf.len() >= model::owned_size(cs, id),
    ensures
        model::spread(cs, id, buf).len() == model::total_size(cs),
    decreases cs.len(),
{
    if cs.len() > 0 {
        lemma_spread(cs.drop_last(), id, buf);
    }
}

/// Byte `j` of controller `k` in one client's share of a frame.
pub(crate) proof fn lemma_spread_byte(cs: Seq<ControllerView>, id: usize, buf: Seq<u8>, k: int, j: int)
    requires
        buf.len() >= model::owned_size(cs, id),
        0 <= k < cs.len(),
        0 <= j < cs[k].size,
    ensures
        model::total_size(cs.take(k)) + j < model::total_size(cs),
        model::spread(cs, id, buf)[model::total_size(cs.take(k)) + j]
            == if cs[k].owners.contains(id) {
            buf[model::owned_size(cs.take(k), id) + j]
        } else {
            0u8
        },
    decreases cs.len(),
{
    let front = cs.drop_last();
    lemma_spread(front, id, buf);
    if k == cs.len() - 1 {
        assert(cs.take(k) =~= front);
    } else {
        assert(front[k] == cs[k]);
        assert(front.take(k) =~= cs.take(k));
        lemma_spread_byte(front, id, buf, k, j);
    }
}

spec fn all_fit(clients: Seq<ClientView>, cs: Seq<ControllerView>) -> bool {
    forall|i: int|
        0 <= i < clients.len() ==> (#[trigger] clients[i]).controller_buffer.len()
            >= model::owned_size(cs, clients[i].id)
}

/// Where at most the client at position `owner` plays on controller `k`, its bytes are that
/// client's; where nobody does, they are zero.
proof fn lemma_merged_byte(
    clients: Seq<ClientView>,
    cs: Seq<ControllerView>,
    k: int,
    j: int,
    owner: int,
)
    requires
        all_fit(clients, cs),
        0 <= k < cs.len(),
        0 <= j < cs[k].size,
        forall|i: int|
            0 <= i < clients.len() && cs[k].owners.contains((#[trigger] clients[i]).id) ==> i
                == owner,
    ensures
        model::merged(clients, cs).len() == model::total_size(cs),
        model::total_size(cs.take(k)) + j < model::total_size(cs),
        model::merged(clients, cs)[model::total_size(cs.take(k)) + j] == if 0 <= owner
            < clients.len() && cs[k].owners.contains(clients[owner].id) {
            clients[owner].controller_buffer[model::owned_size(cs.take(k), clients[owner].id) + j]
        } else {
            0u8
        },
    decreases clients.len(),
{
    proofs::lemma_take_next(cs, k, 0);
    proofs::lemma_take_bounded(cs, k + 1, 0);
    if clients.len() > 0 {
        let front = clients.drop_last();
        let c = clients.last();
        assert(c == clients[clients.len() - 1]);
        assert forall|i: int| 0 <= i < front.len() implies #[trigger] front[i] == clients[i] by {}
        assert(all_fit(front, cs));
        lemma_merged_byte(front, cs, k, j, owner);
        lemma_spread(cs, c.id, c.controller_buffer);
        lemma_spread_byte(cs, c.id, c.controller_buffer, k, j);
        let p = model::total_size(cs.take(k)) + j;
        let a = model::merged(front, cs)[p];
        let b = model::spread(cs, c.id, c.controller_buffer)[p];
        assert(a | 0u8 == a) by (bit_vector);
        assert(0u8 | b == b) by (bit_vector);
    }
}

/// A frame has the size that the game gives it.
pub proof fn law_frame_length(room: RoomView)
    ensures
        model::merged(room.clients, room.controllers).len() == model::total_size(room.controllers),
{
    lemma_merged_len(room.clients, room.controllers);
}

pub(crate) proof fn lemma_merged_len(clients: Seq<ClientView>, cs: Seq<ControllerView>)
    ensures
        model::merged(clients, cs).len() == model::total_size(cs),
    decreases clients.len(),
{
    if clients.len() > 0 {
        lemma_merged_len(clients.drop_last(), cs);
    }
}

/// The bytes of a controller in a frame are exactly those that the client who plays on it has
/// given for it.
pub proof fn law_frame_carries_input(room: RoomView, k: int, i: int)
    requires
        room.wf(),
        room.buffers_fit(),
        0 <= k < room.controllers.len(),
        0 <= i < room.clients.len(),
        room.controllers[k].owners.contains(room.clients[i].id),
    ensures
        ({
            let at = model::total_size(room.controllers.take(k)) as int;
            let from = model::owned_size(room.controllers.take(k), room.clients[i].id) as int;
            let size = room.controllers[k].size as int;
            model::merged(room.clients, room.controllers).subrange(at, at + size)
                == room.clients[i].controller_buffer.subrange(from, from + size)
        }),
{
    let cs = room.controllers;
    let id = room.clients[i].id;
    let at = model::total_size(cs.take(k)) as int;
    let from = model::owned_size(cs.take(k), id) as int;
    let size = cs[k].size as int;
    lemma_merged_len(room.clients, cs);
    proofs::lemma_take_next(cs, k, id);
    proofs::lemma_take_bounded(cs, k + 1, id);
    assert forall|m: int|
        0 <= m < room.clients.len() && cs[k].owners.contains(
            (#[trigger] room.clients[m]).id,
        ) implies m == i by {
        assert(cs[k].owners.len() <= 1);
        assert(room.clients[m].id == room.clients[i].id);
    }
    let sent = model::merged(room.clients, cs).subrange(at, at + size);
    let given = room.clients[i].controller_buffer.subrange(from, from + size);
    assert forall|j: int| 0 <= j < size implies #[trigger] sent[j] == given[j] by {
        lemma_merged_byte(room.clients, cs, k, j, i);
    }
    assert(sent =~= given);
}

/// The bytes of a controller that nobody plays on are zero.
pub proof fn law_unowned_controller_is_silent(room: RoomView, k: int)
    requires
        room.buffers_fit(),
        0 <= k < room.controllers.len(),
        room.controllers[k].owners.len() == 0,
    ensures
        ({
            let at = model::total_size(room.controllers.take(k)) as int;
            let size = room.controllers[k].size;
            model::merged(room.clients, room.controllers).subrange(at, at + size) == bytes::zeros(
                size,
            )
        }),
{
    let cs = room.controllers;
    let at = model::total_size(cs.take(k)) as int;
    let size = cs[k].size as int;
    lemma_merged_len(room.clients, cs);
    proofs::lemma_take_next(cs, k, 0);
    proofs::lemma_take_bounded(cs, k + 1, 0);
    let sent = model::merged(room.clients, cs).subrange(at, at + size);
    assert forall|j: int| 0 <= j < size implies #[trigger] sent[j] == 0 by {
        lemma_merged_byte(room.clients, cs, k, j, -1);
    }
    assert(sent =~= bytes::zeros(size as nat));
}

/// Taking the dead out leaves exactly the living, and takes exactly the dead off the controllers.
pub proof fn law_only_the_dead_leave(room: RoomView, c: ClientView, k: int, id: usize)
    ensures
        room.without_dead().clients.contains(c) <==> room.clients.contains(c) && !c.dead,
        0 <= k < room.controllers.len() ==> (room.without_dead().controllers[k].owners.contains(id)
            <==> room.controllers[k].owners.contains(id) && !model::is_dead(room.clients, id)),
{
    proofs::lemma_living(room.clients);
    assert(model::living(room.clients).contains(c) <==> room.clients.contains(c) && !c.dead);
    if 0 <= k < room.controllers.len() {
        proofs::lemma_filter_contains(
            room.controllers[k].owners,
            model::is_spared(room.clients),
            id,
        );
    }
}

/// Whoever is not dead keeps the size of their input and the set of their controllers when others
/// leave.
pub proof fn law_leaving_leaves_others_alone(room: RoomView, i: int)
    requires
        room.wf(),
        0 <= i < room.clients.len(),
        !room.clients[i].dead,
    ensures
        room.without_dead().clients.contains(room.clients[i]),
        model::owned_size(room.without_dead().controllers, room.clients[i].id)
            == model::owned_size(room.controllers, room.clients[i].id),
        model::mps_bits(room.without_dead().controllers, room.clients[i].id) == model::mps_bits(
            room.controllers,
            room.clients[i].id,
        ),
{
    let id = room.clients[i].id;
    let after = room.without_dead();
    assert(room.clients.contains(room.clients[i]));
    proofs::lemma_living(room.clients);
    assert(model::living(room.clients).contains(room.clients[i]));
    assert forall|k: int| 0 <= k < room.controllers.len() implies (
    #[trigger] after.controllers[k]).size == room.controllers[k].size
        && after.controllers[k].owners.contains(id) == room.controllers[k].owners.contains(id) by {
        law_only_the_dead_leave(room, room.clients[i], k, id);
    }
    assert(agree_on(after.controllers, room.controllers, id));
    lemma_agree(after.controllers, room.controllers, id);
}

/// As long as every client has given enough input, those who stay still have once others leave.
pub proof fn law_leaving_keeps_buffers_fitting(room: RoomView)
    requires
        room.wf(),
        room.buffers_fit(),
    ensures
        room.without_dead().buffers_fit(),
{
    let after = room.without_dead();
    proofs::lemma_living(room.clients);
    assert forall|i: int| 0 <= i < after.clients.len() implies (
    #[trigger] after.clients[i]).controller_buffer.len() >= model::owned_size(
        after.controllers,
        after.clients[i].id,
    ) by {
        let j = choose|j: int| 0 <= j < room.clients.len() && room.clients[j] == after.clients[i];
        law_leaving_leaves_others_alone(room, j);
    }
}

/// A command changes nothing in a room but that its sender may count as dead, and the rate where
/// it sets one.
pub proof fn law_command_touches_only_its_sender(
    room: RoomView,
    from: int,
    command: CommandView,
    i: int,
)
    requires
        0 <= from < room.clients.len(),
        0 <= i < room.clients.len(),
    ensures
        ({
            let after = room.after_command(from, command);
            &&& after.controllers == room.controllers
            &&& after.game_info == room.game_info
            &&& after.clients.len() == room.clients.len()
            &&& i != from ==> after.clients[i] == room.clients[i]
            &&& after.clients[from].id == room.clients[from].id
            &&& after.clients[from].nickname == room.clients[from].nickname
            &&& after.clients[from].controller_buffer == room.clients[from].controller_buffer
            &&& after.rate == match rate_asked(command) {
                Some(n) => n,
                None => room.rate,
            }
        }),
{
}

/// A client who has said goodbye is out of the room, and off every controller, once the dead are
/// taken out.
pub proof fn law_quitter_is_gone(room: RoomView, from: int, data: Seq<u8>, k: int)
    requires
        room.wf(),
        0 <= from < room.clients.len(),
    ensures
        ({
            let quit = CommandView { cmd: commands::QUIT, payload: PayloadView::Data(data) };
            let after = room.after_command(from, quit).without_dead();
            &&& !model::is_member(after.clients, room.clients[from].id)
            &&& 0 <= k < room.controllers.len() ==> !after.controllers[k].owners.contains(
                room.clients[from].id,
            )
        }),
{
    let quit = CommandView { cmd: commands::QUIT, payload: PayloadView::Data(data) };
    let mid = room.after_command(from, quit);
    let id = room.clients[from].id;
    proofs::lemma_same_members(room, mid);
    assert(mid.clients[from].id == id && mid.clients[from].dead);
    law_dead_are_gone(mid, id, k);
}

/// Once the dead are taken out, none of them is in the room or on a controller.
pub proof fn law_dead_are_gone(room: RoomView, id: usize, k: int)
    requires
        room.wf(),
        model::is_dead(room.clients, id),
    ensures
        !model::is_member(room.without_dead().clients, id),
        0 <= k < room.controllers.len() ==> !room.without_dead().controllers[k].owners.contains(
            id,
        ),
{
    let after = room.without_dead();
    let d = choose|d: int|
        0 <= d < room.clients.len() && (#[trigger] room.clients[d]).id == id
            && room.clients[d].dead;
    proofs::lemma_living(room.clients);
    law_only_the_dead_leave(room, room.clients[d], k, id);
    if model::is_member(after.clients, id) {
        let i = choose|i: int| 0 <= i < after.clients.len() && (#[trigger] after.clients[i]).id == id;
        let j = choose|j: int| 0 <= j < room.clients.len() && room.clients[j] == after.clients[i];
        assert(room.clients[j].id == room.clients[d].id);
        assert(j == d);
    }
}

/// Whoever is dead stays so until the dead are taken out, which happens once a frame has gone out.
pub proof fn law_dead_until_taken_out(state: LoopView, event: EventView, id: usize)
    requires
        state.wf(),
        state.accepts(event),
        model::is_dead(state.room.clients, id),
    ensures
        event !is Sent ==> model::is_dead(state.next(event).room.clients, id),
        event is Sent ==> !model::is_member(state.next(event).room.clients, id),
{
    let room = state.room;
    let after = state.next(event).room;
    let d = choose|d: int|
        0 <= d < room.clients.len() && (#[trigger] room.clients[d]).id == id
            && room.clients[d].dead;
    match event {
        EventView::Sent(reached) => {
            let mid = room.with_unreached(reached);
            proofs::lemma_same_members(room, mid);
            assert(mid.clients[d].id == id && mid.clients[d].dead);
            law_dead_are_gone(mid, id, 0);
        },
        _ => {
            assert(after.clients[d].id == id && after.clients[d].dead);
        },
    }
}

/// A round sends one frame: frames go out only once the inputs are in, one to each client in
/// their order, and all the same.
pub proof fn law_one_frame_for_each_client(state: LoopView, event: EventView, i: int)
    requires
        state.wf(),
        state.accepts(event),
    ensures
        event is Inputs ==> state.effects(event).len() == state.room.clients.len(),
        event is Inputs && 0 <= i < state.room.clients.len() ==> state.effects(event)[i] == (
        EffectView::Send {
            to: state.room.clients[i].id,
            message: MessageView::AllGamepads(
                model::merged(state.next(event).room.clients, state.room.controllers),
            ),
        }),
        event !is Inputs && 0 <= i < state.effects(event).len() ==> !(
        state.effects(event)[i] matches EffectView::Send {
            message: MessageView::AllGamepads(_),
            ..
        }),
{
}

/// The rate that a command asks for, if it is one that sets the rate.
pub open spec fn rate_asked(command: CommandView) -> Option<u32> {
    match command.payload {
        PayloadView::Number(n) => if command.cmd == commands::SETFPS {
            Some(n)
        } else {
            None
        },
        PayloadView::Data(data) => None,
    }
}

/// The rate that an event asks for, if it does.
pub open spec fn rate_asked_by(event: EventView) -> Option<u32> {
    match event {
        EventView::Command(command) => rate_asked(command),
        _ => None,
    }
}

/// The rate of a room is what the last command to set it said, and whoever keeps its clock is
/// told of each such command; nothing else changes it.
pub proof fn law_rate_is_set_by_command_alone(state: LoopView, event: EventView)
    requires
        state.accepts(event),
    ensures
        match rate_asked_by(event) {
            Some(n) => state.next(event).room.rate == n && state.effects(event) == seq![
                EffectView::SetRate(n),
            ],
            None => state.next(event).room.rate == state.room.rate && forall|i: int|
                0 <= i < state.effects(event).len() ==> (#[trigger] state.effects(event)[i])
                    !is SetRate,
        },
{
}

/// From its first client on, a running room keeps what holds of it through every event that it
/// accepts, and plays the same game.
pub proof fn law_running_room_stays_well_formed(state: LoopView, event: EventView)
    requires
        state.wf(),
        state.accepts(event),
    ensures
        state.next(event).wf(),
        state.next(event).room.game_info == state.room.game_info,
        model::total_size(state.next(event).room.controllers) == model::total_size(
            state.room.controllers,
        ),
{
    let room = state.room;
    match event {
        EventView::Join(request) => {
            if room.refusal(request) is None {
                proofs::lemma_with_client_wf(room, request);
            }
        },
        EventView::Command(command) => {
            proofs::lemma_same_members(room, state.next(event).room);
        },
        EventView::Inputs(inputs) => {
            proofs::lemma_same_members(room, state.next(event).room);
        },
        EventView::Sent(reached) => {
            let mid = room.with_unreached(reached);
            proofs::lemma_same_members(room, mid);
            proofs::lemma_without_dead_wf(mid);
            proofs::lemma_filter_contains(mid.clients, model::is_living(), mid.clients[0]);
        },
        _ => {},
    }
    law_frame_size_is_fixed(state.next(event).room, room);
}

/// The size of a client's input never changes while it is in the room: what it was told when it
/// joined holds to the end.
pub proof fn law_input_size_never_changes(state: LoopView, event: EventView, id: usize)
    requires
        state.wf(),
        state.accepts(event),
        model::is_member(state.room.clients, id),
        model::is_member(state.next(event).room.clients, id),
    ensures
        model::owned_size(state.next(event).room.controllers, id) == model::owned_size(
            state.room.controllers,
            id,
        ),
{
    let room = state.room;
    let i = choose|i: int| 0 <= i < room.clients.len() && (#[trigger] room.clients[i]).id == id;
    match event {
        EventView::Join(request) => {
            if room.refusal(request) is None {
                law_join_leaves_others_alone(room, request, i);
            }
        },
        EventView::Sent(reached) => {
            let mid = room.with_unreached(reached);
            proofs::lemma_same_members(room, mid);
            assert(mid.clients[i].id == id);
            if mid.clients[i].dead {
                law_dead_are_gone(mid, id, 0);
            } else {
                law_leaving_leaves_others_alone(mid, i);
            }
        },
        _ => {},
    }
}

/// A newcomer is told the size of its input before anything else, and no other client is told
/// one.
pub proof fn law_newcomer_is_told_its_input_size(room: RoomView, request: JoinView, i: int)
    requires
        0 <= i < room.client_effects(request).len(),
    ensures
        room.client_effects(request)[0] == (EffectView::InputSize {
            to: model::next_id(room.clients) as usize,
            size: model::owned_size(
                room.with_client(request).controllers,
                model::next_id(room.clients) as usize,
            ),
        }),
        i > 0 ==> room.client_effects(request)[i] !is InputSize,
{
}

/// The parts of a chat line can be told apart, as long as the name is not absurdly long.
pub proof fn law_chat_line_can_be_read(nickname: Seq<u8>, text: Seq<u8>)
    requires
        nickname.len() <= u32::MAX,
    ensures
        ({
            let line = model::chat_line(nickname, text);
            let n = bytes::le_value(line.take(4)) as int;
            line.subrange(4, 4 + n) == nickname && line.skip(4 + n) == text
        }),
{
    let line = model::chat_line(nickname, text);
    assert(line.take(4) =~= bytes::le_bytes(nickname.len()));
    bytes::law_le_round_trip(nickname.len() as u32);
    assert(line.subrange(4, 4 + nickname.len() as int) =~= nickname);
    assert(line.skip(4 + nickname.len() as int) =~= text);
}

/// The parts of a notice about a newcomer can be told apart.
pub proof fn law_join_notice_can_be_read(mps: nat, nickname: Seq<u8>)
    requires
        mps <= u32::MAX,
    ensures
        bytes::le_value(model::join_notice(mps, nickname).take(4)) == mps,
        model::join_notice(mps, nickname).skip(8) == nickname,
{
    let notice = model::join_notice(mps, nickname);
    assert(notice.take(4) =~= bytes::le_bytes(mps));
    bytes::law_le_round_trip(mps as u32);
    assert(notice.skip(8) =~= nickname);
}

/// A room can go on with inputs of the sizes that it has told its clients, and with those of
/// clients that have not heard of their size yet and still hold a whole frame's worth.
pub proof fn law_inputs_of_told_size_are_accepted(state: LoopView, inputs: Seq<Seq<u8>>)
    requires
        state.wf(),
        state.phase == Phase::Inputs,
        inputs.len() == state.room.clients.len(),
        forall|i: int|
            0 <= i < inputs.len() ==> (#[trigger] inputs[i]).len() == model::owned_size(
                state.room.controllers,
                state.room.clients[i].id,
            ) || inputs[i].len() >= model::total_size(state.room.controllers),
    ensures
        state.accepts(EventView::Inputs(inputs)),
{
    let room = state.room.with_inputs(inputs);
    assert forall|i: int| 0 <= i < room.clients.len() implies (
    #[trigger] room.clients[i]).controller_buffer.len() >= model::owned_size(
        room.controllers,
        room.clients[i].id,
    ) by {
        assert(room.clients[i].controller_buffer == inputs[i]);
        proofs::lemma_sizes_bounded(room.controllers, room.clients[i].id);
    }
}

} // verus!
