use vstd::arithmetic::power2;
use vstd::bits;
use vstd::prelude::*;

use crate::room::model;
use crate::room::model::{ControllerView, RoomView};
use crate::types::{ClientView, JoinView};

verus! {

/// Whether every controller takes at most 255 bytes of a frame.
pub open spec fn small(cs: Seq<ControllerView>) -> bool {
    forall|k: int| 0 <= k < cs.len() ==> (#[trigger] cs[k]).size <= 255
}

pub proof fn lemma_sizes_bounded(cs: Seq<ControllerView>, id: usize)
    requires
        small(cs),
    ensures
        model::owned_size(cs, id) <= model::total_size(cs) <= 255 * cs.len(),
    decreases cs.len(),
{
    if cs.len() > 0 {
        assert forall|k: int| 0 <= k < cs.drop_last().len() implies (#[trigger] cs.drop_last()[k]).size
            <= 255 by {
            assert(cs.drop_last()[k] == cs[k]);
        }
        lemma_sizes_bounded(cs.drop_last(), id);
        assert(cs.last() == cs[cs.len() - 1]);
    }
}

/// How the measures of a list of controllers grow by one controller.
pub proof fn lemma_take_next(cs: Seq<ControllerView>, k: int, id: usize)
    requires
        0 <= k < cs.len(),
    ensures
        cs.take(k + 1).drop_last() == cs.take(k),
        cs.take(k + 1).last() == cs[k],
        model::total_size(cs.take(k + 1)) == model::total_size(cs.take(k)) + cs[k].size,
        model::owned_size(cs.take(k + 1), id) == model::owned_size(cs.take(k), id) + if cs[k].owners.contains(
            id,
        ) {
            cs[k].size
        } else {
            0
        },
        model::unowned(cs.take(k + 1)) == model::unowned(cs.take(k)) + if cs[k].owners.len() == 0 {
            1nat
        } else {
            0
        },
        model::mps_bits(cs.take(k + 1), id) == model::mps_bits(cs.take(k), id) + if cs[k].owners.contains(
            id,
        ) {
            power2::pow2(k as nat)
        } else {
            0
        },
{
    assert(cs.take(k + 1).drop_last() =~= cs.take(k));
}

/// The measures of the first controllers do not exceed those of all of them.
pub proof fn lemma_take_bounded(cs: Seq<ControllerView>, k: int, id: usize)
    requires
        0 <= k <= cs.len(),
    ensures
        model::total_size(cs.take(k)) <= model::total_size(cs),
        model::owned_size(cs.take(k), id) <= model::owned_size(cs, id),
        model::unowned(cs.take(k)) <= model::unowned(cs),
    decreases cs.len() - k,
{
    if k < cs.len() {
        lemma_take_next(cs, k, id);
        lemma_take_bounded(cs, k + 1, id);
    } else {
        assert(cs.take(k) =~= cs);
    }
}

/// Setting one more bit above all the others adds its weight.
pub proof fn lemma_or_next_bit(m: u32, k: u32)
    requires
        k < 31,
        m < power2::pow2(k as nat),
    ensures
        (m | (1u32 << k)) == m + power2::pow2(k as nat),
        (m | (1u32 << k)) < power2::pow2((k + 1) as nat),
        power2::pow2(k as nat) < power2::pow2((k + 1) as nat),
{
    power2::lemma_pow2_strictly_increases(k as nat, 32);
    assert(power2::pow2(32) == 0x100000000) by {
        power2::lemma2_to64();
    }
    bits::lemma_u32_shl_is_mul(1, k);
    let bit = 1u32 << k;
    assert((m | bit) == m + bit) by (bit_vector)
        requires
            m < bit,
            bit == 1u32 << k,
            k < 31,
    ;
    power2::lemma_pow2_unfold((k + 1) as nat);
}

/// No client has a larger id than `max_id`.
pub proof fn lemma_max_id(clients: Seq<ClientView>)
    ensures
        forall|i: int|
            0 <= i < clients.len() ==> (#[trigger] clients[i]).id <= model::max_id(clients),
        clients.len() > 0 ==> exists|i: int|
            0 <= i < clients.len() && (#[trigger] clients[i]).id == model::max_id(clients),
        clients.len() == 0 ==> model::max_id(clients) == 0,
    decreases clients.len(),
{
    if clients.len() > 0 {
        let front = clients.drop_last();
        lemma_max_id(front);
        assert forall|i: int| 0 <= i < clients.len() implies (#[trigger] clients[i]).id
            <= model::max_id(clients) by {
            if i < clients.len() - 1 {
                assert(front[i] == clients[i]);
            }
        }
        if clients.last().id > model::max_id(front) {
            assert(clients[clients.len() - 1].id == model::max_id(clients));
        } else if front.len() > 0 {
            let i = choose|i: int|
                0 <= i < front.len() && (#[trigger] front[i]).id == model::max_id(front);
            assert(clients[i].id == model::max_id(clients));
        } else {
            assert(clients[0].id == model::max_id(clients));
        }
    }
}

/// Taking a client in keeps what holds of a room.
pub proof fn lemma_with_client_wf(room: RoomView, request: JoinView)
    requires
        room.wf(),
        model::next_id(room.clients) <= usize::MAX,
    ensures
        room.with_client(request).wf(),
{
    let id = model::next_id(room.clients) as usize;
    let after = room.with_client(request);
    lemma_max_id(room.clients);
    assert forall|i: int| 0 <= i < room.clients.len() implies after.clients[i]
        == #[trigger] room.clients[i] by {}
    assert forall|k: int, o: usize|
        0 <= k < after.controllers.len() && #[trigger] after.controllers[k].owners.contains(
            o,
        ) implies model::is_member(after.clients, o) by {
        if room.controllers[k].owners.contains(o) {
            let i = choose|i: int|
                0 <= i < room.clients.len() && (#[trigger] room.clients[i]).id == o;
            assert(after.clients[i].id == o);
        } else {
            assert(after.clients[room.clients.len() as int].id == id);
        }
    }
}

/// A room whose clients keep their ids and whose controllers keep their owners stays well formed.
pub proof fn lemma_same_members(room: RoomView, after: RoomView)
    requires
        after.game_info == room.game_info,
        after.controllers == room.controllers,
        after.clients.len() == room.clients.len(),
        forall|i: int|
            0 <= i < room.clients.len() ==> (#[trigger] after.clients[i]).id == room.clients[i].id,
    ensures
        room.wf() ==> after.wf(),
{
    if room.wf() {
        assert forall|k: int, o: usize|
            0 <= k < after.controllers.len() && #[trigger] after.controllers[k].owners.contains(
                o,
            ) implies model::is_member(after.clients, o) by {
            let i = choose|i: int|
                0 <= i < room.clients.len() && (#[trigger] room.clients[i]).id == o;
            assert(after.clients[i].id == o);
        }
    }
}

/// How a filtered sequence grows by one item.
pub proof fn lemma_filter_next<T>(s: Seq<T>, n: int, keep: spec_fn(T) -> bool)
    requires
        0 <= n < s.len(),
    ensures
        s.take(n + 1).filter(keep) == if keep(s[n]) {
            s.take(n).filter(keep).push(s[n])
        } else {
            s.take(n).filter(keep)
        },
{
    assert(s.take(n + 1).drop_last() =~= s.take(n));
    assert(s.take(n + 1).last() == s[n]);
    reveal(Seq::filter);
}

/// Filters that agree on the items of a sequence keep the same of them.
pub proof fn lemma_filter_agree<T>(s: Seq<T>, p: spec_fn(T) -> bool, q: spec_fn(T) -> bool)
    requires
        forall|i: int| 0 <= i < s.len() ==> p(#[trigger] s[i]) == q(s[i]),
    ensures
        s.filter(p) == s.filter(q),
    decreases s.len(),
{
    reveal(Seq::filter);
    if s.len() > 0 {
        assert forall|i: int| 0 <= i < s.drop_last().len() implies p(#[trigger] s.drop_last()[i])
            == q(s.drop_last()[i]) by {
            assert(s.drop_last()[i] == s[i]);
        }
        lemma_filter_agree(s.drop_last(), p, q);
        assert(s.last() == s[s.len() - 1]);
    }
}

/// A filter that keeps every item changes nothing.
pub proof fn lemma_filter_all<T>(s: Seq<T>, p: spec_fn(T) -> bool)
    requires
        forall|i: int| 0 <= i < s.len() ==> p(#[trigger] s[i]),
    ensures
        s.filter(p) == s,
    decreases s.len(),
{
    reveal(Seq::filter);
    if s.len() > 0 {
        assert forall|i: int| 0 <= i < s.drop_last().len() implies p(
            #[trigger] s.drop_last()[i],
        ) by {
            assert(s.drop_last()[i] == s[i]);
        }
        lemma_filter_all(s.drop_last(), p);
        assert(s.last() == s[s.len() - 1]);
        assert(s.drop_last().push(s.last()) =~= s);
    }
}

/// The test for what passes two tests.
pub open spec fn both<T>(p: spec_fn(T) -> bool, q: spec_fn(T) -> bool) -> spec_fn(T) -> bool {
    |x: T| p(x) && q(x)
}

/// Filtering twice keeps what passes both filters.
pub proof fn lemma_filter_twice<T>(s: Seq<T>, p: spec_fn(T) -> bool, q: spec_fn(T) -> bool)
    ensures
        s.filter(p).filter(q) == s.filter(both(p, q)),
    decreases s.len(),
{
    reveal(Seq::filter);
    if s.len() > 0 {
        lemma_filter_twice(s.drop_last(), p, q);
        let f = s.drop_last().filter(p);
        if p(s.last()) {
            assert(f.push(s.last()).drop_last() =~= f);
        }
    }
}

/// A filter keeps nothing that was not there, and everything that passes.
pub proof fn lemma_filter_contains<T>(s: Seq<T>, p: spec_fn(T) -> bool, x: T)
    ensures
        s.filter(p).contains(x) <==> s.contains(x) && p(x),
        s.filter(p).len() <= s.len(),
    decreases s.len(),
{
    reveal(Seq::filter);
    if s.len() > 0 {
        let front = s.drop_last();
        lemma_filter_contains(front, p, x);
        assert(front.push(s.last()) =~= s);
        lemma_push_contains(front, s.last(), x);
        lemma_push_contains(front.filter(p), s.last(), x);
    }
}

pub proof fn lemma_push_contains<T>(s: Seq<T>, y: T, x: T)
    ensures
        s.push(y).contains(x) <==> s.contains(x) || x == y,
{
    assert(s.push(y)[s.len() as int] == y);
    if s.contains(x) {
        let i = choose|i: int| 0 <= i < s.len() && s[i] == x;
        assert(s.push(y)[i] == x);
    }
}

/// The test for an id other than the given one.
pub open spec fn other_than(id: usize) -> spec_fn(usize) -> bool {
    |o: usize| o != id
}

/// A controller without one of its owners.
pub open spec fn without_owner(c: ControllerView, id: usize) -> ControllerView {
    ControllerView { size: c.size, owners: c.owners.filter(other_than(id)) }
}

/// A controller without the given client, if that client is dead.
pub open spec fn released_next(c: ControllerView, client: ClientView) -> ControllerView {
    if client.dead {
        without_owner(c, client.id)
    } else {
        c
    }
}

pub proof fn lemma_released_nobody(c: ControllerView, clients: Seq<ClientView>)
    requires
        clients.len() == 0,
    ensures
        model::released(c, clients) == c,
{
    lemma_filter_all(c.owners, model::is_spared(clients));
}

pub proof fn lemma_living_next(clients: Seq<ClientView>, n: int)
    requires
        0 <= n < clients.len(),
    ensures
        model::living(clients.take(n + 1)) == if clients[n].dead {
            model::living(clients.take(n))
        } else {
            model::living(clients.take(n)).push(clients[n])
        },
{
    lemma_filter_next(clients, n, model::is_living());
}

/// Looking at one more client takes that client off a controller if it is dead.
pub proof fn lemma_released_next(c: ControllerView, clients: Seq<ClientView>, n: int)
    requires
        0 <= n < clients.len(),
    ensures
        model::released(c, clients.take(n + 1)) == released_next(
            model::released(c, clients.take(n)),
            clients[n],
        ),
{
    let fewer = clients.take(n);
    let more = clients.take(n + 1);
    let p = model::is_spared(fewer);
    let q = other_than(clients[n].id);
    let r = model::is_spared(more);
    assert forall|id: usize| #[trigger]
        model::is_dead(more, id) == (model::is_dead(fewer, id) || (clients[n].dead
            && clients[n].id == id)) by {
        if model::is_dead(fewer, id) {
            let i = choose|i: int|
                0 <= i < fewer.len() && (#[trigger] fewer[i]).id == id && fewer[i].dead;
            assert(more[i].id == id);
        }
        if model::is_dead(more, id) {
            let i = choose|i: int|
                0 <= i < more.len() && (#[trigger] more[i]).id == id && more[i].dead;
            if i < n {
                assert(fewer[i].id == id);
            }
        }
        if clients[n].dead && clients[n].id == id {
            assert(more[n].id == id);
        }
    }
    if clients[n].dead {
        lemma_filter_twice(c.owners, p, q);
        lemma_filter_agree(c.owners, both(p, q), r);
    } else {
        lemma_filter_agree(c.owners, p, r);
    }
}

/// The dead are not among the living, and the living keep their order.
pub proof fn lemma_living(clients: Seq<ClientView>)
    ensures
        forall|c: ClientView| #[trigger]
            model::living(clients).contains(c) <==> clients.contains(c) && !c.dead,
        forall|i: int|
            0 <= i < model::living(clients).len() ==> clients.contains(
                #[trigger] model::living(clients)[i],
            ) && !model::living(clients)[i].dead,
{
    assert forall|c: ClientView| #[trigger]
        model::living(clients).contains(c) <==> clients.contains(c) && !c.dead by {
        lemma_filter_contains(clients, model::is_living(), c);
    }
    assert forall|i: int| 0 <= i < model::living(clients).len() implies clients.contains(
        #[trigger] model::living(clients)[i],
    ) && !model::living(clients)[i].dead by {
        assert(model::living(clients).contains(model::living(clients)[i]));
    }
}

/// Ids that differ still differ among the living.
pub proof fn lemma_living_distinct(clients: Seq<ClientView>)
    requires
        forall|i: int, j: int|
            0 <= i < j < clients.len() ==> (#[trigger] clients[i]).id != (
            #[trigger] clients[j]).id,
    ensures
        forall|i: int, j: int|
            0 <= i < j < model::living(clients).len() ==> (#[trigger] model::living(
                clients,
            )[i]).id != (#[trigger] model::living(clients)[j]).id,
    decreases clients.len(),
{
    reveal(Seq::filter);
    if clients.len() > 0 {
        let front = clients.drop_last();
        assert forall|i: int, j: int| 0 <= i < j < front.len() implies (#[trigger] front[i]).id != (
        #[trigger] front[j]).id by {
            assert(front[i] == clients[i] && front[j] == clients[j]);
        }
        lemma_living_distinct(front);
        lemma_living(front);
        let alive = model::living(clients);
        assert forall|i: int, j: int| 0 <= i < j < alive.len() implies (#[trigger] alive[i]).id != (
        #[trigger] alive[j]).id by {
            if j == model::living(front).len() {
                assert(front.contains(model::living(front)[i]));
                let m = choose|m: int| 0 <= m < front.len() && front[m] == model::living(front)[i];
                assert(clients[m] == alive[i]);
                assert(clients[clients.len() - 1] == alive[j]);
            } else {
                assert(alive[i] == model::living(front)[i]);
                assert(alive[j] == model::living(front)[j]);
            }
        }
    }
}

/// Taking the dead out keeps what holds of a room.
pub proof fn lemma_without_dead_wf(room: RoomView)
    ensures
        room.wf() ==> room.without_dead().wf(),
{
    if room.wf() {
        let after = room.without_dead();
        lemma_living(room.clients);
        lemma_living_distinct(room.clients);
        assert forall|k: int| 0 <= k < after.controllers.len() implies (
        #[trigger] after.controllers[k]).owners.len() <= 1 by {
            lemma_filter_contains(
                room.controllers[k].owners,
                model::is_spared(room.clients),
                0,
            );
            assert(room.controllers[k].owners.len() <= 1);
        }
        assert forall|k: int, o: usize|
            0 <= k < after.controllers.len() && #[trigger] after.controllers[k].owners.contains(
                o,
            ) implies model::is_member(after.clients, o) by {
            lemma_filter_contains(
                room.controllers[k].owners,
                model::is_spared(room.clients),
                o,
            );
            assert(room.controllers[k].owners.contains(o));
            let i = choose|i: int|
                0 <= i < room.clients.len() && (#[trigger] room.clients[i]).id == o;
            assert(room.clients.contains(room.clients[i]));
            assert(!room.clients[i].dead);
            assert(model::living(room.clients).contains(room.clients[i]));
            let j = choose|j: int|
                0 <= j < after.clients.len() && after.clients[j] == room.clients[i];
            assert(after.clients[j].id == o);
        }
        assert forall|i: int| 0 <= i < after.clients.len() implies (#[trigger] after.clients[i]).id
            >= 1 by {
            let j = choose|j: int|
                0 <= j < room.clients.len() && room.clients[j] == after.clients[i];
            assert(room.clients[j].id >= 1);
        }
    }
}

} // verus!
