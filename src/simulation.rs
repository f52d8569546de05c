//! Time stepping of a galaxy: production, the landing of scheduled ships and
//! the application of moves, in order of tick.

use vstd::prelude::*;
use crate::buckets::{add_arrival, buckets_wf, BucketView, ModBucket, ModBuckets, PlanetDelta};
use crate::game::{grow, grown, land, landed, launch, launched, planet_in_range, Galaxy, Move, Planet};
use crate::geometry::{ship_arrival, ship_arrivals};

verus! {

/// Every planet after `elapsed` ticks of production.
pub open spec fn grow_all(ps: Seq<Planet>, elapsed: nat) -> Seq<Planet> {
    ps.map_values(|p: Planet| grown(p, elapsed))
}

/// The planet after the deltas have landed on it, in order.
pub open spec fn landed_all(p: Planet, ds: Seq<PlanetDelta>) -> Planet
    decreases ds.len(),
{
    if ds.len() == 0 {
        p
    } else {
        landed_all(landed(p, ds[0].possession, ds[0].magnitude as nat), ds.drop_first())
    }
}

/// The planets after the ships of a bucket have landed.
pub open spec fn resolved(ps: Seq<Planet>, b: BucketView) -> Seq<Planet> {
    Seq::new(ps.len(), |i: int| landed_all(ps[i], b.deltas[i]))
}

/// Planets and pending buckets after stepping from tick `prev` to `target`:
/// buckets at or before `prev` are stale and dropped; each bucket up to
/// `target` is applied at its tick, after production up to that tick; the
/// remaining time until `target` is production.
pub open spec fn drain(prev: nat, ps: Seq<Planet>, bs: Seq<BucketView>, target: nat) -> (Seq<Planet>, Seq<BucketView>)
    decreases bs.len(),
{
    if bs.len() == 0 || bs[0].time > target {
        (grow_all(ps, (target - prev) as nat), bs)
    } else if bs[0].time <= prev {
        drain(prev, ps, bs.drop_first(), target)
    } else {
        drain(bs[0].time as nat, resolved(grow_all(ps, (bs[0].time - prev) as nat), bs[0]), bs.drop_first(), target)
    }
}

/// The player whose ships a move sends.
pub open spec fn attacker_of(m: Move) -> usize {
    match m.from.possession {
        Some(a) => a,
        None => 0,
    }
}

/// The buckets after the first `k` ships of a move are scheduled.
pub open spec fn schedule_first(bs: Seq<BucketView>, m: Move, n: nat, k: nat) -> Seq<BucketView>
    decreases k,
{
    if k == 0 {
        bs
    } else {
        add_arrival(
            schedule_first(bs, m, n, (k - 1) as nat),
            ship_arrival(m, k - 1) as u64,
            m.to.index as int,
            attacker_of(m),
            n,
        )
    }
}

/// The buckets after every ship of a move is scheduled.
pub open spec fn schedule(bs: Seq<BucketView>, m: Move, n: nat) -> Seq<BucketView> {
    schedule_first(bs, m, n, m.armada_size as nat)
}

/// The state that stepping works on.
pub struct SimState {
    pub time: nat,
    pub planets: Seq<Planet>,
    pub buckets: Seq<BucketView>,
    /// Number of moves of the history that have been applied.
    pub completed: nat,
}

/// The state after the next pending move is applied at its tick. `entry` is
/// the tick at which stepping began: the armada of a move issued after it has
/// not yet left its planet.
pub open spec fn apply_next(s: SimState, moves: Seq<Move>, entry: nat, n: nat) -> SimState {
    let m = moves[s.completed as int];
    let d = if m.time >= s.time {
        drain(s.time, s.planets, s.buckets, m.time as nat)
    } else {
        (s.planets, s.buckets)
    };
    let ps = if entry < m.time {
        d.0.update(m.from.index as int, launched(d.0[m.from.index as int], m.armada_size as nat))
    } else {
        d.0
    };
    SimState { time: m.time as nat, planets: ps, buckets: schedule(d.1, m, n), completed: s.completed + 1 }
}

/// Applies the pending moves issued by `target`, in order.
pub open spec fn step_moves(s: SimState, moves: Seq<Move>, entry: nat, target: nat, n: nat) -> SimState
    decreases moves.len() - s.completed,
{
    if s.completed >= moves.len() || moves[s.completed as int].time > target {
        s
    } else {
        step_moves(apply_next(s, moves, entry, n), moves, entry, target, n)
    }
}

/// Stepping ends at the first pending move issued after the target.
pub(crate) proof fn lemma_step_moves_stops(s: SimState, moves: Seq<Move>, entry: nat, target: nat, n: nat)
    ensures
        ({
            let r = step_moves(s, moves, entry, target, n);
            &&& r.completed >= s.completed
            &&& r.completed >= moves.len() || moves[r.completed as int].time > target
        }),
    decreases moves.len() - s.completed,
{
    if !(s.completed >= moves.len() || moves[s.completed as int].time > target) {
        lemma_step_moves_stops(apply_next(s, moves, entry, n), moves, entry, target, n);
    }
}

/// The state after stepping to `target`.
pub open spec fn step_state(s: SimState, moves: Seq<Move>, target: nat, n: nat) -> SimState {
    let s1 = step_moves(s, moves, s.time, target, n);
    if s1.time < target {
        let d = drain(s1.time, s1.planets, s1.buckets, target);
        SimState { time: target, planets: d.0, buckets: d.1, completed: s1.completed }
    } else {
        SimState { time: target, ..s1 }
    }
}

/// Every planet lies within the value limits.
pub open spec fn planets_in_range(ps: Seq<Planet>) -> bool {
    forall|i: int| 0 <= i < ps.len() ==> planet_in_range(#[trigger] ps[i])
}

/// The moves from `from` on are in order of tick, none before `time`, and
/// each is a move of a player between planets of a galaxy of `n` planets.
pub open spec fn pending_wf(moves: Seq<Move>, from: nat, time: nat, n: nat) -> bool {
    &&& from <= moves.len()
    &&& forall|i: int, j: int| from <= i <= j < moves.len() ==> moves[i].time <= moves[j].time
    &&& forall|i: int| from <= i < moves.len() ==> time <= (#[trigger] moves[i]).time
    &&& forall|i: int|
        from <= i < moves.len() ==> {
            &&& (#[trigger] moves[i]).from.index < n
            &&& moves[i].to.index < n
            &&& moves[i].from.possession is Some
        }
}

/// Each planet's index is its position.
pub open spec fn planets_indexed(ps: Seq<Planet>) -> bool {
    forall|i: int| 0 <= i < ps.len() ==> (#[trigger] ps[i]).index == i
}

/// Two planet sequences whose planets have the same indices.
pub open spec fn same_indices(a: Seq<Planet>, b: Seq<Planet>) -> bool {
    a.len() == b.len() && forall|i: int| 0 <= i < a.len() ==> (#[trigger] a[i]).index == b[i].index
}

/// A state that can be stepped.
pub open spec fn sim_wf(s: SimState, moves: Seq<Move>, n: nat) -> bool {
    &&& s.planets.len() == n
    &&& planets_indexed(s.planets)
    &&& planets_in_range(s.planets)
    &&& buckets_wf(s.buckets, n)
    &&& pending_wf(moves, s.completed, s.time, n)
}

/// Adds `elapsed` ticks of production to every planet.
pub fn spawn_ships(planets: &mut Vec<Planet>, elapsed: u32)
    requires
        planets_in_range(old(planets)@),
    ensures
        final(planets)@ == grow_all(old(planets)@, elapsed as nat),
        planets_in_range(final(planets)@),
        same_indices(final(planets)@, old(planets)@),
{
    let mut i: usize = 0;
    while i < planets.len()
        invariant
            i <= planets@.len(),
            planets@.len() == old(planets)@.len(),
            forall|j: int| 0 <= j < i ==> planets@[j] == grown(old(planets)@[j], elapsed as nat),
            forall|j: int| i <= j < planets@.len() ==> planets@[j] == old(planets)@[j],
            planets_in_range(planets@),
        decreases planets@.len() - i,
    {
        let mut p = planets[i];
        grow(&mut p, elapsed);
        planets[i] = p;
        i = i + 1;
    }
    assert(planets@ =~= grow_all(old(planets)@, elapsed as nat));
}

/// Lands the ships of a bucket on their planets.
fn resolve_bucket(planets: &mut Vec<Planet>, b: &ModBucket)
    requires
        planets_in_range(old(planets)@),
        b.view().deltas.len() == old(planets)@.len(),
    ensures
        final(planets)@ == resolved(old(planets)@, b.view()),
        planets_in_range(final(planets)@),
        same_indices(final(planets)@, old(planets)@),
{
    let mut i: usize = 0;
    while i < planets.len()
        invariant
            i <= planets@.len(),
            planets@.len() == old(planets)@.len(),
            b.view().deltas.len() == old(planets)@.len(),
            forall|j: int| 0 <= j < i ==> planets@[j] == landed_all(old(planets)@[j], b.view().deltas[j]),
            forall|j: int| 0 <= j < i ==> (#[trigger] planets@[j]).index == old(planets)@[j].index,
            forall|j: int| i <= j < planets@.len() ==> planets@[j] == old(planets)@[j],
            planets_in_range(planets@),
        decreases planets@.len() - i,
    {
        let mut p = planets[i];
        let ds = &b.deltas_by_planet[i];
        assert(ds@ == b.view().deltas[i as int]);
        assert(ds@.subrange(0, ds@.len() as int) =~= ds@);
        let mut j: usize = 0;
        while j < ds.len()
            invariant
                i < old(planets)@.len(),
                j <= ds@.len(),
                planet_in_range(p),
                p.index == old(planets)@[i as int].index,
                landed_all(old(planets)@[i as int], ds@) == landed_all(p, ds@.subrange(j as int, ds@.len() as int)),
            decreases ds@.len() - j,
        {
            let d = ds[j];
            assert(ds@.subrange(j as int, ds@.len() as int).drop_first() =~= ds@.subrange(j + 1, ds@.len() as int));
            land(&mut p, d.possession, d.magnitude);
            j = j + 1;
        }
        assert(ds@.subrange(j as int, ds@.len() as int) =~= Seq::<PlanetDelta>::empty());
        planets[i] = p;
        i = i + 1;
    }
    assert(planets@ =~= resolved(old(planets)@, b.view()));
}

/// Steps planets and buckets from tick `prev` to tick `target`.
pub fn apply_buckets(prev: u32, planets: &mut Vec<Planet>, buckets: &mut ModBuckets, target: u32)
    requires
        prev <= target,
        planets_in_range(old(planets)@),
        old(buckets).wf(old(planets)@.len()),
    ensures
        (final(planets)@, final(buckets).view()) == drain(prev as nat, old(planets)@, old(buckets).view(), target as nat),
        final(planets)@.len() == old(planets)@.len(),
        planets_in_range(final(planets)@),
        same_indices(final(planets)@, old(planets)@),
        final(buckets).wf(old(planets)@.len()),
{
    let ghost n = planets@.len();
    let mut at: u32 = prev;
    while buckets.len() > 0 && buckets.first_time() <= target as u64
        invariant
            at <= target,
            planets@.len() == n,
            same_indices(planets@, old(planets)@),
            planets_in_range(planets@),
            buckets.wf(n),
            drain(prev as nat, old(planets)@, old(buckets).view(), target as nat)
                == drain(at as nat, planets@, buckets.view(), target as nat),
        decreases buckets.view().len(),
    {
        let b = buckets.pop_front();
        if b.time > at as u64 {
            spawn_ships(planets, (b.time - at as u64) as u32);
            resolve_bucket(planets, &b);
            at = b.time as u32;
        }
    }
    spawn_ships(planets, target - at);
}

/// Schedules the landing of every ship of a move.
pub fn schedule_move(buckets: &mut ModBuckets, m: &Move, n: usize)
    requires
        old(buckets).wf(n as nat),
        m.to.index < n,
    ensures
        final(buckets).view() == schedule(old(buckets).view(), *m, n as nat),
        final(buckets).wf(n as nat),
{
    let arrivals = ship_arrivals(m);
    let attacker = match m.from.possession {
        Some(a) => a,
        None => 0,
    };
    let mut k: usize = 0;
    while k < arrivals.len()
        invariant
            arrivals@.len() == m.armada_size,
            forall|i: int| 0 <= i < arrivals@.len() ==> arrivals@[i] == ship_arrival(*m, i),
            attacker == attacker_of(*m),
            m.to.index < n,
            k <= arrivals@.len(),
            buckets.wf(n as nat),
            buckets.view() == schedule_first(old(buckets).view(), *m, n as nat, k as nat),
        decreases arrivals@.len() - k,
    {
        buckets.add_arrival(arrivals[k], m.to.index, attacker, n);
        k = k + 1;
    }
}

/// The state of a galaxy for stepping.
pub open spec fn sim_of(g: Galaxy, completed: nat, bs: Seq<BucketView>) -> SimState {
    SimState { time: g.time as nat, planets: g.planets@, buckets: bs, completed }
}

/// Steps a galaxy to tick `target`: applies the pending moves issued by then
/// in order, and the production and landings up to `target`.
pub fn advance(galaxy: &mut Galaxy, buckets: &mut ModBuckets, completed: &mut usize, target: u32)
    requires
        sim_wf(sim_of(*old(galaxy), *old(completed) as nat, old(buckets).view()), old(galaxy).moves@, old(galaxy).planets@.len()),
        old(galaxy).time <= target,
    ensures
        sim_of(*final(galaxy), *final(completed) as nat, final(buckets).view()) == step_state(
            sim_of(*old(galaxy), *old(completed) as nat, old(buckets).view()),
            old(galaxy).moves@,
            target as nat,
            old(galaxy).planets@.len(),
        ),
        final(galaxy).moves == old(galaxy).moves,
        sim_wf(sim_of(*final(galaxy), *final(completed) as nat, final(buckets).view()), final(galaxy).moves@, final(galaxy).planets@.len()),
{
    let ghost s0 = sim_of(*galaxy, *completed as nat, buckets.view());
    let ghost moves = galaxy.moves@;
    let n = galaxy.planets.len();
    let entry = galaxy.time;
    while *completed < galaxy.moves.len() && galaxy.moves[*completed].time <= target
        invariant
            galaxy.moves == old(galaxy).moves,
            moves == galaxy.moves@,
            n == galaxy.planets@.len(),
            n == old(galaxy).planets@.len(),
            entry == s0.time,
            galaxy.time <= target,
            sim_wf(sim_of(*galaxy, *completed as nat, buckets.view()), moves, n as nat),
            step_moves(s0, moves, entry as nat, target as nat, n as nat)
                == step_moves(sim_of(*galaxy, *completed as nat, buckets.view()), moves, entry as nat, target as nat, n as nat),
        decreases moves.len() - *completed,
    {
        let m = galaxy.moves[*completed];
        if m.time >= galaxy.time {
            apply_buckets(galaxy.time, &mut galaxy.planets, buckets, m.time);
        }
        galaxy.time = m.time;
        if entry < m.time {
            let mut p = galaxy.planets[m.from.index];
            launch(&mut p, m.armada_size);
            galaxy.planets[m.from.index] = p;
        }
        schedule_move(buckets, &m, n);
        *completed = *completed + 1;
    }
    if galaxy.time < target {
        apply_buckets(galaxy.time, &mut galaxy.planets, buckets, target);
    }
    galaxy.time = target;
}

} // verus!