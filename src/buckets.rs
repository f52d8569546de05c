//! The store of pending arrivals: ships that land on planets at future ticks.
//!
//! Arrivals are grouped by tick into buckets, kept in increasing order of
//! tick. Within a bucket the arrivals on each planet are kept per attacking
//! player, in the order in which those players first scheduled ships there.

use vstd::prelude::*;

verus! {

/// `magnitude` ships of player `possession` that land together.
#[derive(Clone, Copy, Debug, PartialEq, Eq, Structural)]
pub struct PlanetDelta {
    pub magnitude: u64,
    pub possession: usize,
}

/// The arrivals of one tick, per destination planet.
#[derive(Clone, Debug)]
pub struct ModBucket {
    pub time: u64,
    pub deltas_by_planet: Vec<Vec<PlanetDelta>>,
}

/// What a bucket holds, as plain sequences.
pub struct BucketView {
    pub time: u64,
    pub deltas: Seq<Seq<PlanetDelta>>,
}

impl ModBucket {
    pub open spec fn view(&self) -> BucketView {
        BucketView { time: self.time, deltas: self.deltas_by_planet@.map_values(|v: Vec<PlanetDelta>| v@) }
    }
}

/// The pending buckets, in increasing order of tick.
#[derive(Clone, Debug)]
pub struct ModBuckets {
    buckets: Vec<ModBucket>,
}

/// A magnitude raised by one ship (it stays at `u64::MAX` once there).
pub open spec fn one_more(m: u64) -> u64 {
    if m < u64::MAX {
        (m + 1) as u64
    } else {
        m
    }
}

/// Position of the first delta of `player` in `ds`, or `ds.len()`.
pub open spec fn delta_pos(ds: Seq<PlanetDelta>, player: usize) -> nat
    decreases ds.len(),
{
    if ds.len() == 0 {
        0
    } else if ds[0].possession == player {
        0
    } else {
        1 + delta_pos(ds.drop_first(), player)
    }
}

/// The deltas of a planet after one more ship of `player` is scheduled.
pub open spec fn bumped(ds: Seq<PlanetDelta>, player: usize) -> Seq<PlanetDelta> {
    let i = delta_pos(ds, player);
    if i < ds.len() {
        ds.update(i as int, PlanetDelta { magnitude: one_more(ds[i as int].magnitude), ..ds[i as int] })
    } else {
        ds.push(PlanetDelta { magnitude: 1, possession: player })
    }
}

/// Position of the first bucket whose tick is `t` or later, or `bs.len()`.
pub open spec fn bucket_pos(bs: Seq<BucketView>, t: u64) -> nat
    decreases bs.len(),
{
    if bs.len() == 0 {
        0
    } else if bs[0].time >= t {
        0
    } else {
        1 + bucket_pos(bs.drop_first(), t)
    }
}

/// A bucket for `n` planets holding one ship of `player` on planet `p`.
pub open spec fn single_bucket(t: u64, p: int, player: usize, n: nat) -> BucketView {
    BucketView {
        time: t,
        deltas: Seq::new(
            n,
            |j: int|
                if j == p {
                    seq![PlanetDelta { magnitude: 1, possession: player }]
                } else {
                    Seq::<PlanetDelta>::empty()
                },
        ),
    }
}

/// The buckets after one ship of `player` is scheduled to land on planet `p`
/// at tick `t`.
pub open spec fn add_arrival(bs: Seq<BucketView>, t: u64, p: int, player: usize, n: nat) -> Seq<BucketView> {
    let i = bucket_pos(bs, t);
    if i < bs.len() && bs[i as int].time == t {
        bs.update(
            i as int,
            BucketView { time: t, deltas: bs[i as int].deltas.update(p, bumped(bs[i as int].deltas[p], player)) },
        )
    } else {
        bs.insert(i as int, single_bucket(t, p, player, n))
    }
}

/// Buckets for `n` planets, in strictly increasing order of tick.
pub open spec fn buckets_wf(bs: Seq<BucketView>, n: nat) -> bool {
    &&& forall|i: int, j: int| 0 <= i < j < bs.len() ==> bs[i].time < bs[j].time
    &&& forall|i: int| 0 <= i < bs.len() ==> (#[trigger] bs[i]).deltas.len() == n
}

proof fn lemma_delta_pos(ds: Seq<PlanetDelta>, player: usize, i: int)
    requires
        0 <= i <= ds.len(),
        forall|j: int| 0 <= j < i ==> ds[j].possession != player,
        i == ds.len() || ds[i].possession == player,
    ensures
        delta_pos(ds, player) == i,
    decreases ds.len(),
{
    if ds.len() > 0 && i > 0 {
        lemma_delta_pos(ds.drop_first(), player, i - 1);
    }
}

proof fn lemma_bucket_pos(bs: Seq<BucketView>, t: u64, i: int)
    requires
        0 <= i <= bs.len(),
        forall|j: int| 0 <= j < i ==> bs[j].time < t,
        i == bs.len() || bs[i].time >= t,
    ensures
        bucket_pos(bs, t) == i,
    decreases bs.len(),
{
    if bs.len() > 0 && i > 0 {
        lemma_bucket_pos(bs.drop_first(), t, i - 1);
    }
}

/// Schedules one more ship of `player` in a planet's deltas.
fn bump(ds: &mut Vec<PlanetDelta>, player: usize)
    ensures
        final(ds)@ == bumped(old(ds)@, player),
{
    let mut i: usize = 0;
    while i < ds.len()
        invariant
            ds@ == old(ds)@,
            i <= ds@.len(),
            forall|j: int| 0 <= j < i ==> ds@[j].possession != player,
        decreases ds@.len() - i,
    {
        if ds[i].possession == player {
            proof {
                lemma_delta_pos(ds@, player, i as int);
            }
            let d = ds[i];
            let m = if d.magnitude < u64::MAX { d.magnitude + 1 } else { d.magnitude };
            ds[i] = PlanetDelta { magnitude: m, possession: player };
            assert(ds@ =~= bumped(old(ds)@, player));
            return;
        }
        i = i + 1;
    }
    proof {
        lemma_delta_pos(ds@, player, i as int);
    }
    ds.push(PlanetDelta { magnitude: 1, possession: player });
    assert(ds@ =~= bumped(old(ds)@, player));
}

impl ModBuckets {
    pub closed spec fn view(&self) -> Seq<BucketView> {
        self.buckets@.map_values(|b: ModBucket| b.view())
    }

    /// Well formed for a galaxy of `n` planets.
    pub open spec fn wf(&self, n: nat) -> bool {
        buckets_wf(self.view(), n)
    }

    pub fn new() -> (r: ModBuckets)
        ensures
            r.view() == Seq::<BucketView>::empty(),
    {
        let r = ModBuckets { buckets: Vec::new() };
        assert(r.view() =~= Seq::<BucketView>::empty());
        r
    }

    pub fn len(&self) -> (r: usize)
        ensures
            r == self.view().len(),
    {
        self.buckets.len()
    }

    /// Schedules one ship of `player` to land on planet `p` at tick `t`.
    pub fn add_arrival(&mut self, t: u64, p: usize, player: usize, n: usize)
        requires
            old(self).wf(n as nat),
            p < n,
        ensures
            final(self).view() == add_arrival(old(self).view(), t, p as int, player, n as nat),
            final(self).wf(n as nat),
    {
        let ghost bs = self.view();
        let mut i: usize = 0;
        while i < self.buckets.len() && self.buckets[i].time < t
            invariant
                bs == self.view(),
                i <= bs.len(),
                forall|j: int| 0 <= j < i ==> bs[j].time < t,
            decreases bs.len() - i,
        {
            i = i + 1;
        }
        proof {
            lemma_bucket_pos(bs, t, i as int);
        }
        if i < self.buckets.len() && self.buckets[i].time == t {
            let ghost old_buckets = self.buckets@;
            let mut b = self.buckets.remove(i);
            let ghost old_b = b;
            assert(b.view() == bs[i as int]);
            let mut ds = b.deltas_by_planet.remove(p);
            assert(ds@ == bs[i as int].deltas[p as int]);
            bump(&mut ds, player);
            b.deltas_by_planet.insert(p, ds);
            assert(b.deltas_by_planet@ =~= old_b.deltas_by_planet@.update(p as int, ds));
            assert(b.view().deltas =~= bs[i as int].deltas.update(p as int, bumped(bs[i as int].deltas[p as int], player)));
            self.buckets.insert(i, b);
            assert(self.buckets@ =~= old_buckets.update(i as int, b));
        } else {
            let mut deltas: Vec<Vec<PlanetDelta>> = Vec::new();
            let mut j: usize = 0;
            while j < n
                invariant
                    j <= n,
                    p < n,
                    deltas@.len() == j,
                    forall|k: int| 0 <= k < j ==> (#[trigger] deltas@[k])@ == single_bucket(t, p as int, player, n as nat).deltas[k],
                decreases n - j,
            {
                let mut ds: Vec<PlanetDelta> = Vec::new();
                if j == p {
                    ds.push(PlanetDelta { magnitude: 1, possession: player });
                }
                deltas.push(ds);
                j = j + 1;
            }
            let b = ModBucket { time: t, deltas_by_planet: deltas };
            assert(b.view().deltas =~= single_bucket(t, p as int, player, n as nat).deltas);
            let ghost old_buckets = self.buckets@;
            self.buckets.insert(i, b);
            assert(self.buckets@ =~= old_buckets.insert(i as int, b));
        }
        assert(self.view() =~= add_arrival(bs, t, p as int, player, n as nat));
    }

    /// Tick of the earliest pending bucket.
    pub fn first_time(&self) -> (r: u64)
        requires
            self.view().len() > 0,
        ensures
            r == self.view()[0].time,
    {
        self.buckets[0].time
    }

    /// Takes the earliest pending bucket out of the store.
    pub fn pop_front(&mut self) -> (r: ModBucket)
        requires
            old(self).view().len() > 0,
        ensures
            r.view() == old(self).view()[0],
            final(self).view() == old(self).view().drop_first(),
            forall|n: nat| old(self).wf(n) ==> final(self).wf(n),
    {
        let ghost bs = self.view();
        let r = self.buckets.remove(0);
        assert(self.view() =~= bs.drop_first());
        r
    }
}

} // verus!
