//! Laws of the simulation, proved over the models that the executor's
//! contracts use.

use vstd::prelude::*;
use crate::buckets::{add_arrival, bucket_pos, bumped, delta_pos, single_bucket, BucketView, PlanetDelta};
use crate::executor::{move_added, move_result, same_state, stepped, GameExecutor};
use crate::game::{
    armada_of, grown, landed, launched, planet_in_range, production, GameError, Move, Planet, Player, VALUE_LIMIT, VALUE_PER_SHIP,
};
use crate::simulation::{
    apply_next, drain, grow_all, schedule, schedule_first, pending_wf, planets_in_range, sim_of, sim_wf, step_moves, step_state,
    SimState,
};

verus! {

/// Combat at the boundary: ships of another player landing on an owned
/// planet of non-negative value `v` leave it to its owner with `v - m` when
/// they are fewer than its value (`m` being their value), leave it to its
/// owner with value 0 when they are as many, and take it over with `m - v`
/// when they are more.
pub proof fn combat_boundary(p: Planet, owner: usize, attacker: usize, ships: nat)
    requires
        planet_in_range(p),
        p.possession == Some(owner),
        attacker != owner,
        p.value >= 0,
        ships * VALUE_PER_SHIP <= VALUE_LIMIT,
    ensures
        ships * VALUE_PER_SHIP < p.value ==> landed(p, attacker, ships).possession == Some(owner)
            && landed(p, attacker, ships).value == p.value - ships * VALUE_PER_SHIP,
        ships * VALUE_PER_SHIP == p.value ==> landed(p, attacker, ships).possession == Some(owner)
            && landed(p, attacker, ships).value == 0,
        ships * VALUE_PER_SHIP > p.value ==> landed(p, attacker, ships).possession == Some(attacker)
            && landed(p, attacker, ships).value == ships * VALUE_PER_SHIP - p.value,
{
}

/// Production is additive: `a` ticks of production followed by `b` ticks
/// give what `a + b` ticks give, while the value stays within its limit.
pub proof fn growth_additive(p: Planet, a: nat, b: nat)
    requires
        planet_in_range(p),
        p.value + production(p, a + b) <= VALUE_LIMIT,
    ensures
        grown(grown(p, a), b) == grown(p, a + b),
        grown(p, a + b).value == p.value + production(p, a + b),
{
    assert(production(p, a + b) == production(p, a) + production(p, b)) by (nonlinear_arith);
    assert(production(p, a) >= 0 && production(p, b) >= 0) by (nonlinear_arith);
}

proof fn lemma_grow_all_zero(ps: Seq<Planet>)
    requires
        planets_in_range(ps),
    ensures
        grow_all(ps, 0) == ps,
{
    assert forall|i: int| 0 <= i < ps.len() implies grow_all(ps, 0)[i] == ps[i] by {
        assert(production(ps[i], 0) == 0) by (nonlinear_arith);
    }
    assert(grow_all(ps, 0) =~= ps);
}

proof fn lemma_drain_at_same_tick(t: nat, ps: Seq<Planet>, bs: Seq<BucketView>)
    requires
        planets_in_range(ps),
    ensures
        drain(t, ps, bs, t).0 == ps,
    decreases bs.len(),
{
    if bs.len() == 0 || bs[0].time > t {
        lemma_grow_all_zero(ps);
    } else {
        lemma_drain_at_same_tick(t, ps, bs.drop_first());
    }
}

proof fn lemma_step_moves_at_same_tick(s: SimState, moves: Seq<Move>, n: nat)
    requires
        planets_in_range(s.planets),
        pending_wf(moves, s.completed, s.time, n),
    ensures
        step_moves(s, moves, s.time, s.time, n).planets == s.planets,
        step_moves(s, moves, s.time, s.time, n).time == s.time,
    decreases moves.len() - s.completed,
{
    if !(s.completed >= moves.len() || moves[s.completed as int].time > s.time) {
        lemma_drain_at_same_tick(s.time, s.planets, s.buckets);
        let s2 = apply_next(s, moves, s.time, n);
        assert(s2.planets == s.planets);
        lemma_step_moves_at_same_tick(s2, moves, n);
    }
}

/// Stepping to the current tick changes neither the time nor any planet.
pub proof fn step_to_now_keeps_planets(s: SimState, moves: Seq<Move>, n: nat)
    requires
        sim_wf(s, moves, n),
    ensures
        step_state(s, moves, s.time, n).time == s.time,
        step_state(s, moves, s.time, n).planets == s.planets,
{
    lemma_step_moves_at_same_tick(s, moves, n);
}

proof fn lemma_step_moves_reads_pending(
    s: SimState,
    moves1: Seq<Move>,
    moves2: Seq<Move>,
    entry: nat,
    target: nat,
    n: nat,
)
    requires
        moves1.len() == moves2.len(),
        forall|i: int| s.completed <= i < moves1.len() ==> moves1[i] == moves2[i],
    ensures
        step_moves(s, moves1, entry, target, n) == step_moves(s, moves2, entry, target, n),
    decreases moves1.len() - s.completed,
{
    if !(s.completed >= moves1.len() || moves1[s.completed as int].time > target) {
        lemma_step_moves_reads_pending(apply_next(s, moves1, entry, n), moves1, moves2, entry, target, n);
    }
}

/// Applied moves are never applied again: stepping reads only the moves from
/// the applied count on, and never lowers that count.
pub proof fn applied_moves_are_not_reapplied(s: SimState, moves1: Seq<Move>, moves2: Seq<Move>, target: nat, n: nat)
    requires
        moves1.len() == moves2.len(),
        forall|i: int| s.completed <= i < moves1.len() ==> moves1[i] == moves2[i],
    ensures
        step_state(s, moves1, target, n) == step_state(s, moves2, target, n),
        step_state(s, moves1, target, n).completed >= s.completed,
{
    lemma_step_moves_reads_pending(s, moves1, moves2, s.time, target, n);
    crate::simulation::lemma_step_moves_stops(s, moves1, s.time, target, n);
}

/// Stepping is deterministic: two executors in the same state, stepped to
/// the same tick, reach the same state.
pub proof fn step_is_deterministic(a: GameExecutor, b: GameExecutor, a2: GameExecutor, b2: GameExecutor, target: nat)
    requires
        same_state(a, b),
        stepped(a, a2, target),
        stepped(b, b2, target),
    ensures
        same_state(a2, b2),
{
    if let Some(g) = a.game.state {
        let g2 = a2.game.state->Some_0;
        let h2 = b2.game.state->Some_0;
        assert(sim_of(g2, a2.completed(), a2.pending()) == sim_of(h2, b2.completed(), b2.pending()));
    }
}

/// Creating a move is deterministic: from the same state, at the same tick,
/// the same move comes out and the same state is reached.
pub proof fn create_move_is_deterministic(
    a: GameExecutor,
    b: GameExecutor,
    a2: GameExecutor,
    b2: GameExecutor,
    from: u16,
    to: u16,
    time: u32,
)
    requires
        same_state(a, b),
        stepped(a, a2, time as nat),
        stepped(b, b2, time as nat),
    ensures
        same_state(a2, b2),
        move_result(a2, from, to, time) == move_result(b2, from, to, time),
{
    step_is_deterministic(a, b, a2, b2, time as nat);
}

/// Adding a move is deterministic: from the same state, the same move of the
/// same player gives the same answer and the same state.
pub proof fn add_move_is_deterministic(
    a: GameExecutor,
    b: GameExecutor,
    a2: GameExecutor,
    b2: GameExecutor,
    player: Player,
    m: Move,
    ra: Result<(), GameError>,
    rb: Result<(), GameError>,
)
    requires
        same_state(a, b),
        exists|s: GameExecutor| #[trigger] stepped(a, s, m.time as nat) && move_added(s, a2, player, m, ra),
        exists|s: GameExecutor| #[trigger] stepped(b, s, m.time as nat) && move_added(s, b2, player, m, rb),
    ensures
        ra == rb,
        same_state(a2, b2),
{
    let sa = choose|s: GameExecutor| #[trigger] stepped(a, s, m.time as nat) && move_added(s, a2, player, m, ra);
    let sb = choose|s: GameExecutor| #[trigger] stepped(b, s, m.time as nat) && move_added(s, b2, player, m, rb);
    step_is_deterministic(a, b, sa, sb, m.time as nat);
}

proof fn lemma_grow_all_additive(ps: Seq<Planet>, a: nat, b: nat)
    requires
        planets_in_range(ps),
        forall|i: int| 0 <= i < ps.len() ==> (#[trigger] ps[i]).value + production(ps[i], a + b) <= VALUE_LIMIT,
    ensures
        grow_all(grow_all(ps, a), b) == grow_all(ps, a + b),
{
    assert forall|i: int| 0 <= i < ps.len() implies grow_all(grow_all(ps, a), b)[i] == grow_all(ps, a + b)[i] by {
        growth_additive(ps[i], a, b);
    }
    assert(grow_all(grow_all(ps, a), b) =~= grow_all(ps, a + b));
}

/// Draining a stretch in which no bucket falls is production alone, and
/// leaves the buckets without any in that stretch.
proof fn lemma_drain_quiet(prev: nat, ps: Seq<Planet>, bs: Seq<BucketView>, t: nat, last: nat)
    requires
        prev <= t <= last,
        forall|i: int| 0 <= i < bs.len() ==> (#[trigger] bs[i]).time <= prev || bs[i].time > last,
    ensures
        drain(prev, ps, bs, t).0 == grow_all(ps, (t - prev) as nat),
        forall|i: int|
            0 <= i < drain(prev, ps, bs, t).1.len() ==> (#[trigger] drain(prev, ps, bs, t).1[i]).time <= prev
                || drain(prev, ps, bs, t).1[i].time > last,
    decreases bs.len(),
{
    if bs.len() == 0 || bs[0].time > t {
    } else {
        assert(bs[0].time <= prev);
        assert forall|i: int| 0 <= i < bs.drop_first().len() implies (#[trigger] bs.drop_first()[i]).time <= prev
            || bs.drop_first()[i].time > last by {
            assert(bs.drop_first()[i] == bs[i + 1]);
        }
        lemma_drain_quiet(prev, ps, bs.drop_first(), t, last);
    }
}

/// Production does not depend on how a quiet stretch is cut: with no move
/// issued and no ship landing by tick `t2`, stepping to `t1` and then to `t2`
/// leaves the same planets as stepping to `t2` at once, each planet having
/// gained exactly its production over `t2 - time`, while values stay within
/// their limit.
pub proof fn growth_over_split_steps(s: SimState, moves: Seq<Move>, t1: nat, t2: nat, n: nat)
    requires
        sim_wf(s, moves, n),
        s.time <= t1 <= t2,
        s.completed >= moves.len() || moves[s.completed as int].time > t2,
        forall|i: int| 0 <= i < s.buckets.len() ==> (#[trigger] s.buckets[i]).time <= s.time || s.buckets[i].time > t2,
        forall|i: int|
            0 <= i < s.planets.len() ==> (#[trigger] s.planets[i]).value + production(s.planets[i], (t2 - s.time) as nat)
                <= VALUE_LIMIT,
    ensures
        step_state(step_state(s, moves, t1, n), moves, t2, n).planets == grow_all(s.planets, (t2 - s.time) as nat),
        step_state(s, moves, t2, n).planets == grow_all(s.planets, (t2 - s.time) as nat),
{
    let a = (t1 - s.time) as nat;
    let b = (t2 - t1) as nat;
    lemma_drain_quiet(s.time, s.planets, s.buckets, t1, t2);
    lemma_drain_quiet(s.time, s.planets, s.buckets, t2, t2);
    lemma_grow_all_zero(s.planets);
    let s1 = step_state(s, moves, t1, n);
    assert(s1.planets == grow_all(s.planets, a));
    assert(s1.completed == s.completed);
    assert forall|i: int| 0 <= i < s1.buckets.len() implies (#[trigger] s1.buckets[i]).time <= t1 || s1.buckets[i].time > t2 by {
    }
    assert(planets_in_range(s1.planets));
    lemma_drain_quiet(t1, s1.planets, s1.buckets, t2, t2);
    lemma_grow_all_zero(s1.planets);
    lemma_grow_all_additive(s.planets, a, b);
}

/// Sum of a sequence of integers.
pub open spec fn sum_of(s: Seq<int>) -> int
    decreases s.len(),
{
    if s.len() == 0 {
        0
    } else {
        sum_of(s.drop_last()) + s.last()
    }
}

/// Ships held by the deltas of a planet.
pub open spec fn deltas_total(ds: Seq<PlanetDelta>) -> int {
    sum_of(ds.map_values(|d: PlanetDelta| d.magnitude as int))
}

/// Ships held by a bucket.
pub open spec fn bucket_total(b: BucketView) -> int {
    sum_of(b.deltas.map_values(|ds: Seq<PlanetDelta>| deltas_total(ds)))
}

/// Ships scheduled in the buckets.
pub open spec fn scheduled_ships(bs: Seq<BucketView>) -> int {
    sum_of(bs.map_values(|b: BucketView| bucket_total(b)))
}

/// Every delta of the buckets holds fewer than `bound` ships.
pub open spec fn magnitudes_below(bs: Seq<BucketView>, bound: int) -> bool {
    forall|i: int, j: int, k: int|
        0 <= i < bs.len() && 0 <= j < bs[i].deltas.len() && 0 <= k < bs[i].deltas[j].len()
            ==> (#[trigger] bs[i].deltas[j][k]).magnitude < bound
}

proof fn lemma_sum_update(s: Seq<int>, i: int, v: int)
    requires
        0 <= i < s.len(),
    ensures
        sum_of(s.update(i, v)) == sum_of(s) - s[i] + v,
    decreases s.len(),
{
    if i < s.len() - 1 {
        assert(s.update(i, v).drop_last() =~= s.drop_last().update(i, v));
        lemma_sum_update(s.drop_last(), i, v);
    } else {
        assert(s.update(i, v).drop_last() =~= s.drop_last());
    }
}

proof fn lemma_sum_insert(s: Seq<int>, i: int, v: int)
    requires
        0 <= i <= s.len(),
    ensures
        sum_of(s.insert(i, v)) == sum_of(s) + v,
    decreases s.len(),
{
    if i < s.len() {
        assert(s.insert(i, v).drop_last() =~= s.drop_last().insert(i, v));
        lemma_sum_insert(s.drop_last(), i, v);
    } else {
        assert(s.insert(i, v).drop_last() =~= s);
    }
}

proof fn lemma_sum_indicator(n: nat, p: int)
    requires
        0 <= p,
    ensures
        sum_of(Seq::new(n, |j: int| if j == p { 1int } else { 0int })) == if p < n { 1int } else { 0int },
    decreases n,
{
    if n > 0 {
        let f = |j: int| if j == p { 1int } else { 0int };
        assert(Seq::new(n, f).drop_last() =~= Seq::new((n - 1) as nat, f));
        lemma_sum_indicator((n - 1) as nat, p);
    }
}

proof fn lemma_bumped_total(ds: Seq<PlanetDelta>, player: usize, bound: int)
    requires
        1 <= bound <= u64::MAX,
        forall|k: int| 0 <= k < ds.len() ==> (#[trigger] ds[k]).magnitude < bound,
    ensures
        deltas_total(bumped(ds, player)) == deltas_total(ds) + 1,
        forall|k: int| 0 <= k < bumped(ds, player).len() ==> (#[trigger] bumped(ds, player)[k]).magnitude < bound + 1,
{
    let f = |d: PlanetDelta| d.magnitude as int;
    let i = delta_pos(ds, player) as int;
    if i < ds.len() {
        let d2 = PlanetDelta { magnitude: (ds[i].magnitude + 1) as u64, ..ds[i] };
        assert(bumped(ds, player).map_values(f) =~= ds.map_values(f).update(i, d2.magnitude as int));
        lemma_sum_update(ds.map_values(f), i, d2.magnitude as int);
    } else {
        assert(bumped(ds, player).map_values(f) =~= ds.map_values(f).insert(ds.len() as int, 1));
        lemma_sum_insert(ds.map_values(f), ds.len() as int, 1);
    }
}

proof fn lemma_bucket_pos_bound(bs: Seq<BucketView>, t: u64)
    ensures
        bucket_pos(bs, t) <= bs.len(),
    decreases bs.len(),
{
    if bs.len() > 0 {
        lemma_bucket_pos_bound(bs.drop_first(), t);
    }
}

/// Every bucket has deltas for `n` planets.
pub open spec fn deltas_sized(bs: Seq<BucketView>, n: nat) -> bool {
    forall|i: int| 0 <= i < bs.len() ==> (#[trigger] bs[i]).deltas.len() == n
}

proof fn lemma_single_bucket_total(t: u64, p: int, player: usize, n: nat)
    requires
        0 <= p < n,
    ensures
        bucket_total(single_bucket(t, p, player, n)) == 1,
{
    let f = |d: PlanetDelta| d.magnitude as int;
    let one = seq![PlanetDelta { magnitude: 1, possession: player }];
    assert(one.map_values(f) =~= seq![1int]);
    assert(seq![1int].drop_last() =~= Seq::<int>::empty());
    reveal_with_fuel(sum_of, 2);
    assert(deltas_total(one) == 1);
    assert(Seq::<PlanetDelta>::empty().map_values(f) =~= Seq::<int>::empty());
    assert(deltas_total(Seq::<PlanetDelta>::empty()) == 0);
    let g = |ds: Seq<PlanetDelta>| deltas_total(ds);
    assert(single_bucket(t, p, player, n).deltas.map_values(g) =~= Seq::new(n, |j: int| if j == p { 1int } else { 0int }));
    lemma_sum_indicator(n, p);
}

/// Scheduling one ship adds exactly one ship to the buckets.
pub proof fn arrival_adds_one_ship(bs: Seq<BucketView>, t: u64, p: int, player: usize, n: nat, bound: int)
    requires
        deltas_sized(bs, n),
        0 <= p < n,
        1 <= bound <= u64::MAX,
        magnitudes_below(bs, bound),
    ensures
        scheduled_ships(add_arrival(bs, t, p, player, n)) == scheduled_ships(bs) + 1,
        deltas_sized(add_arrival(bs, t, p, player, n), n),
        magnitudes_below(add_arrival(bs, t, p, player, n), bound + 1),
{
    let h = |b: BucketView| bucket_total(b);
    let g = |ds: Seq<PlanetDelta>| deltas_total(ds);
    let i = bucket_pos(bs, t) as int;
    lemma_bucket_pos_bound(bs, t);
    let r = add_arrival(bs, t, p, player, n);
    if i < bs.len() && bs[i].time == t {
        let b = bs[i];
        assert forall|k: int| 0 <= k < b.deltas[p].len() implies (#[trigger] b.deltas[p][k]).magnitude < bound by {
            assert(bs[i].deltas[p][k] == b.deltas[p][k]);
        }
        lemma_bumped_total(b.deltas[p], player, bound);
        let b2 = BucketView { time: t, deltas: b.deltas.update(p, bumped(b.deltas[p], player)) };
        assert(b2.deltas.map_values(g) =~= b.deltas.map_values(g).update(p, deltas_total(bumped(b.deltas[p], player))));
        lemma_sum_update(b.deltas.map_values(g), p, deltas_total(bumped(b.deltas[p], player)));
        assert(r.map_values(h) =~= bs.map_values(h).update(i, bucket_total(b2)));
        lemma_sum_update(bs.map_values(h), i, bucket_total(b2));
        assert forall|x: int, y: int, z: int|
            0 <= x < r.len() && 0 <= y < r[x].deltas.len() && 0 <= z < r[x].deltas[y].len()
                implies (#[trigger] r[x].deltas[y][z]).magnitude < bound + 1 by {
            if x == i && y == p {
            } else {
                assert(r[x].deltas[y][z] == bs[x].deltas[y][z]);
            }
        }
    } else {
        lemma_single_bucket_total(t, p, player, n);
        assert(r.map_values(h) =~= bs.map_values(h).insert(i, bucket_total(single_bucket(t, p, player, n))));
        lemma_sum_insert(bs.map_values(h), i, 1);
        assert forall|x: int, y: int, z: int|
            0 <= x < r.len() && 0 <= y < r[x].deltas.len() && 0 <= z < r[x].deltas[y].len()
                implies (#[trigger] r[x].deltas[y][z]).magnitude < bound + 1 by {
            if x < i {
                assert(r[x].deltas[y][z] == bs[x].deltas[y][z]);
            } else if x > i {
                assert(r[x].deltas[y][z] == bs[x - 1].deltas[y][z]);
            }
        }
    }
}

proof fn lemma_schedule_first_total(bs: Seq<BucketView>, m: Move, n: nat, k: nat, bound: int)
    requires
        deltas_sized(bs, n),
        m.to.index < n,
        1 <= bound,
        bound + k <= u64::MAX,
        magnitudes_below(bs, bound),
    ensures
        scheduled_ships(schedule_first(bs, m, n, k)) == scheduled_ships(bs) + k,
        deltas_sized(schedule_first(bs, m, n, k), n),
        magnitudes_below(schedule_first(bs, m, n, k), bound + k),
    decreases k,
{
    if k > 0 {
        lemma_schedule_first_total(bs, m, n, (k - 1) as nat, bound);
        arrival_adds_one_ship(
            schedule_first(bs, m, n, (k - 1) as nat),
            crate::geometry::ship_arrival(m, k - 1) as u64,
            m.to.index as int,
            crate::simulation::attacker_of(m),
            n,
            bound + k - 1,
        );
    }
}

/// No ship is lost or gained in scheduling: the buckets gain exactly the
/// move's armada, while no delta nears `u64::MAX` ships.
pub proof fn scheduling_conserves_ships(bs: Seq<BucketView>, m: Move, n: nat, bound: int)
    requires
        deltas_sized(bs, n),
        m.to.index < n,
        1 <= bound,
        bound + m.armada_size <= u64::MAX,
        magnitudes_below(bs, bound),
    ensures
        scheduled_ships(schedule(bs, m, n)) == scheduled_ships(bs) + m.armada_size,
{
    lemma_schedule_first_total(bs, m, n, m.armada_size as nat, bound);
}

/// The armada leaves its planet exactly: the value drops by the armada's
/// ships, while it stays within its limit.
pub proof fn launch_takes_the_armada(p: Planet, armada: nat)
    requires
        planet_in_range(p),
        p.value - armada * VALUE_PER_SHIP >= -VALUE_LIMIT,
    ensures
        launched(p, armada).value == p.value - armada * VALUE_PER_SHIP,
        launched(p, armada).possession == p.possession,
{
}

/// A move made by `create_move_at` and then accepted by `add_move` takes
/// exactly half of the source planet's whole ships (rounded down) off it.
pub proof fn created_move_takes_half_the_source(
    a: GameExecutor,
    s: GameExecutor,
    b: GameExecutor,
    player: Player,
    m: Move,
    from: u16,
    to: u16,
    time: u32,
)
    requires
        a.wf(),
        a.game.state matches Some(g) && g.time == time,
        move_result(a, from, to, time) == Ok::<Move, GameError>(m),
        stepped(a, s, time as nat),
        move_added(s, b, player, m, Ok(())),
    ensures
        ({
            let p = a.game.state->Some_0.planets@[from as int];
            &&& m.armada_size == armada_of(p)
            &&& b.game.state is Some
            &&& b.game.state->Some_0.planets@[from as int] == launched(p, armada_of(p))
            &&& p.value >= 0 ==> b.game.state->Some_0.planets@[from as int].value == p.value - armada_of(p) * VALUE_PER_SHIP
        }),
{
    let g = a.game.state->Some_0;
    step_to_now_keeps_planets(sim_of(g, a.completed(), a.pending()), g.moves@, g.planets@.len());
    let p = g.planets@[from as int];
    if p.value > 0 {
        let w = p.value / VALUE_PER_SHIP;
        assert(w * VALUE_PER_SHIP <= p.value) by (nonlinear_arith)
            requires
                w == p.value / VALUE_PER_SHIP,
                p.value > 0,
        ;
        assert(armada_of(p) * VALUE_PER_SHIP <= p.value) by (nonlinear_arith)
            requires
                armada_of(p) <= w,
                w * VALUE_PER_SHIP <= p.value,
                w >= 0,
        ;
    }
}

} // verus!