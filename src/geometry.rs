//! Geometry of moves in fixed point: distances between planets, the window of
//! arrival ticks of a move, and the starting place and arrival tick of each
//! of its ships.
//!
//! Positions are measured in sub-units, `OFFSET_SCALE` of them to a unit of
//! distance. Each ship starts at a point of the source planet's disk drawn
//! from a xoshiro128** stream with a fixed seed, so the placement of the
//! ships of a move depends on the move alone.

use vstd::prelude::*;
use rand_xoshiro::Xoshiro128StarStar;
use rand_xoshiro::rand_core::{RngCore, SeedableRng};
use crate::game::{Move, TICKS_PER_DISTANCE};

verus! {

/// `r` is the integer square root of `n`.
pub open spec fn is_floor_sqrt(n: nat, r: nat) -> bool {
    r * r <= n && n < (r + 1) * (r + 1)
}

/// The integer square root of `n`: the largest `r` with `r * r <= n`.
pub open spec fn floor_sqrt(n: nat) -> nat {
    choose|r: nat| is_floor_sqrt(n, r)
}

/// Largest radicand accepted by `isqrt`.
pub const SQRT_LIMIT: u128 = 0x10_0000_0000_0000_0000_0000_0000;

proof fn lemma_floor_sqrt_unique(n: nat, r: nat)
    requires
        is_floor_sqrt(n, r),
    ensures
        floor_sqrt(n) == r,
{
    let s = floor_sqrt(n);
    assert(is_floor_sqrt(n, s));
    if s < r {
        assert((s + 1) * (s + 1) <= r * r) by (nonlinear_arith)
            requires
                s < r,
        ;
    } else if r < s {
        assert((r + 1) * (r + 1) <= s * s) by (nonlinear_arith)
            requires
                r < s,
        ;
    }
}

/// Integer square root by bisection.
pub fn isqrt(n: u128) -> (r: u64)
    requires
        n < SQRT_LIMIT,
    ensures
        r as nat == floor_sqrt(n as nat),
        (r as nat) < 0x4_0000_0000_0000,
{
    let mut lo: u128 = 0;
    let mut hi: u128 = 0x4_0000_0000_0000;
    assert(hi * hi == SQRT_LIMIT);
    while hi - lo > 1
        invariant
            lo < hi,
            hi <= 0x4_0000_0000_0000,
            lo * lo <= n,
            n < hi * hi,
        decreases hi - lo,
    {
        let mid = lo + (hi - lo) / 2;
        assert(mid * mid <= 0x4_0000_0000_0000 * 0x4_0000_0000_0000) by (nonlinear_arith)
            requires
                mid < 0x4_0000_0000_0000,
        ;
        if mid * mid <= n {
            lo = mid;
        } else {
            hi = mid;
        }
    }
    assert(hi == lo + 1);
    proof {
        lemma_floor_sqrt_unique(n as nat, lo as nat);
    }
    lo as u64
}

/// Sub-units in one unit of distance.
pub const OFFSET_SCALE: i128 = 32768;

/// Seed of the stream that places the ships of every move.
pub const PLACEMENT_SEED: u64 = 827_803_098;

/// Candidate points drawn for each ship; a ship whose candidates all fall
/// outside the disk starts at the planet's center.
pub const PLACEMENT_TRIES: u64 = 8;

/// The first `count` outputs of `next_u32` of a xoshiro128** generator
/// seeded by `seed_from_u64(seed)`.
pub uninterp spec fn xoshiro_draws(seed: u64, count: nat) -> Seq<u32>;

/// Relies on `Xoshiro128StarStar::seed_from_u64` and `RngCore::next_u32` of
/// rand_xoshiro: the outputs of a seeded generator depend on the seed alone.
#[verifier::external_body]
fn seeded_draws(seed: u64, count: u64) -> (r: Vec<u32>)
    ensures
        r@ == xoshiro_draws(seed, count as nat),
        r@.len() == count,
{
    let mut rng = Xoshiro128StarStar::seed_from_u64(seed);
    (0..count).map(|_| rng.next_u32()).collect()
}

/// Squared distance between two points given in sub-units.
pub open spec fn square_distance(ax: int, ay: int, bx: int, by: int) -> nat {
    ((ax - bx) * (ax - bx) + (ay - by) * (ay - by)) as nat
}

/// Distance between the centers of the move's planets, in sub-units.
pub open spec fn center_distance(m: Move) -> nat {
    floor_sqrt(square_distance(
        m.from.x * OFFSET_SCALE,
        m.from.y * OFFSET_SCALE,
        m.to.x * OFFSET_SCALE,
        m.to.y * OFFSET_SCALE,
    ))
}

/// Ticks needed to travel `d` sub-units.
pub open spec fn travel_ticks(d: int) -> nat {
    if d <= 0 {
        0
    } else {
        (d * TICKS_PER_DISTANCE as int / OFFSET_SCALE as int) as nat
    }
}

/// Tick by which the last ship of a move has arrived: the far edge of the
/// source to the far edge of the destination.
pub open spec fn end_time_of(m: Move) -> nat {
    (travel_ticks(center_distance(m) + (m.from.radius + m.to.radius) * OFFSET_SCALE) + m.time) as nat
}

/// Tick at which the first ship of a move can arrive: the near edge of the
/// source to the near edge of the destination, at the issue time at least.
pub open spec fn first_arrival_of(m: Move) -> nat {
    (travel_ticks(center_distance(m) - (m.from.radius + m.to.radius) * OFFSET_SCALE) + m.time) as nat
}

/// Candidate point of a draw in the unit disk, in `1/OFFSET_SCALE` steps:
/// the low half of the draw gives `x`, the high half `y`.
pub open spec fn candidate(d: u32) -> (int, int) {
    ((d % 65536) - OFFSET_SCALE, (d / 65536) - OFFSET_SCALE)
}

pub open spec fn in_disk(c: (int, int)) -> bool {
    c.0 * c.0 + c.1 * c.1 <= OFFSET_SCALE * OFFSET_SCALE
}

/// The first of `n` candidates from `draws[start..]` that lies in the disk,
/// or the center when none does.
pub open spec fn offset_from(draws: Seq<u32>, start: int, n: nat) -> (int, int)
    decreases n,
{
    if n == 0 {
        (0, 0)
    } else if in_disk(candidate(draws[start])) {
        candidate(draws[start])
    } else {
        offset_from(draws, start + 1, (n - 1) as nat)
    }
}

/// Starting offset of ship `k` from the center of its source planet, in
/// `1/OFFSET_SCALE` of the planet's radius.
pub open spec fn ship_offset(draws: Seq<u32>, k: int) -> (int, int) {
    offset_from(draws, k * PLACEMENT_TRIES, PLACEMENT_TRIES as nat)
}

/// The draws that place the ships of a move.
pub open spec fn placement(m: Move) -> Seq<u32> {
    xoshiro_draws(PLACEMENT_SEED, (m.armada_size * PLACEMENT_TRIES) as nat)
}

/// Starting point of ship `k` of a move, in sub-units: a point of the
/// source planet's disk.
pub open spec fn ship_start(m: Move, k: int) -> (int, int) {
    let c = ship_offset(placement(m), k);
    (m.from.x * OFFSET_SCALE + m.from.radius * c.0, m.from.y * OFFSET_SCALE + m.from.radius * c.1)
}

/// Arrival tick of ship `k` of a move: its distance from its starting point
/// to the edge of the destination, at ship speed, after the issue time.
pub open spec fn ship_arrival(m: Move, k: int) -> nat {
    let s = ship_start(m, k);
    let d = floor_sqrt(square_distance(s.0, s.1, m.to.x * OFFSET_SCALE, m.to.y * OFFSET_SCALE));
    (m.time + travel_ticks(d - m.to.radius * OFFSET_SCALE)) as nat
}

/// Squared distance of two points whose coordinates lie within 2^48 of 0.
fn square_distance_exec(ax: i128, ay: i128, bx: i128, by: i128) -> (r: u128)
    requires
        -0x1_0000_0000_0000 <= ax <= 0x1_0000_0000_0000,
        -0x1_0000_0000_0000 <= ay <= 0x1_0000_0000_0000,
        -0x1_0000_0000_0000 <= bx <= 0x1_0000_0000_0000,
        -0x1_0000_0000_0000 <= by <= 0x1_0000_0000_0000,
    ensures
        r == square_distance(ax as int, ay as int, bx as int, by as int),
        r < SQRT_LIMIT,
{
    let dx = ax - bx;
    let dy = ay - by;
    assert(0 <= dx * dx <= 0x2_0000_0000_0000 * 0x2_0000_0000_0000) by (nonlinear_arith)
        requires
            -0x2_0000_0000_0000 <= dx <= 0x2_0000_0000_0000,
    ;
    assert(0 <= dy * dy <= 0x2_0000_0000_0000 * 0x2_0000_0000_0000) by (nonlinear_arith)
        requires
            -0x2_0000_0000_0000 <= dy <= 0x2_0000_0000_0000,
    ;
    assert(2 * (0x2_0000_0000_0000 * 0x2_0000_0000_0000) < SQRT_LIMIT);
    (dx * dx + dy * dy) as u128
}

/// Ticks needed to travel `d` sub-units, `d` below 2^60 in size.
fn travel_ticks_exec(d: i128) -> (r: u64)
    requires
        -0x1000_0000_0000_0000 <= d <= 0x1000_0000_0000_0000,
    ensures
        r == travel_ticks(d as int),
{
    if d <= 0 {
        0
    } else {
        let t = TICKS_PER_DISTANCE as i128;
        assert(0 < d * t <= 0x1000_0000_0000_0000 * 2) by (nonlinear_arith)
            requires
                0 < d <= 0x1000_0000_0000_0000,
                t == 2,
        ;
        (d * t / OFFSET_SCALE) as u64
    }
}

/// Distance between the centers of the move's planets, in sub-units.
fn center_distance_exec(m: &Move) -> (r: i128)
    ensures
        r == center_distance(*m),
        0 <= r < 0x4_0000_0000_0000,
{
    let sq = square_distance_exec(
        (m.from.x as i128) * OFFSET_SCALE,
        (m.from.y as i128) * OFFSET_SCALE,
        (m.to.x as i128) * OFFSET_SCALE,
        (m.to.y as i128) * OFFSET_SCALE,
    );
    isqrt(sq) as i128
}

impl Move {
    /// Tick by which every ship of the move has arrived.
    pub fn end_time(&self) -> (r: u64)
        ensures
            r == end_time_of(*self),
    {
        let d = center_distance_exec(self) + ((self.from.radius as i128) + (self.to.radius as i128)) * OFFSET_SCALE;
        travel_ticks_exec(d) + (self.time as u64)
    }

    /// Earliest tick at which a ship of the move can arrive.
    pub fn first_arrival_time(&self) -> (r: u64)
        ensures
            r == first_arrival_of(*self),
    {
        let d = center_distance_exec(self) - ((self.from.radius as i128) + (self.to.radius as i128)) * OFFSET_SCALE;
        travel_ticks_exec(d) + (self.time as u64)
    }
}

/// The first candidate of `draws[start .. start + PLACEMENT_TRIES]` that lies
/// in the disk, or the center.
fn offset_exec(draws: &Vec<u32>, start: u64) -> (r: (i128, i128))
    requires
        start + PLACEMENT_TRIES <= draws@.len(),
    ensures
        (r.0 as int, r.1 as int) == offset_from(draws@, start as int, PLACEMENT_TRIES as nat),
        -OFFSET_SCALE <= r.0 < OFFSET_SCALE,
        -OFFSET_SCALE <= r.1 < OFFSET_SCALE,
{
    let len = draws.len();
    let mut j: u64 = 0;
    while j < PLACEMENT_TRIES
        invariant
            j <= PLACEMENT_TRIES,
            len == draws@.len(),
            start + PLACEMENT_TRIES <= draws@.len(),
            offset_from(draws@, start as int, PLACEMENT_TRIES as nat)
                == offset_from(draws@, start + j, (PLACEMENT_TRIES - j) as nat),
        decreases PLACEMENT_TRIES - j,
    {
        let d = draws[(start + j) as usize];
        let cx = (d % 65536) as i128 - OFFSET_SCALE;
        let cy = (d / 65536) as i128 - OFFSET_SCALE;
        assert(0 <= cx * cx <= OFFSET_SCALE * OFFSET_SCALE && 0 <= cy * cy <= OFFSET_SCALE * OFFSET_SCALE)
            by (nonlinear_arith)
            requires
                -OFFSET_SCALE <= cx < OFFSET_SCALE,
                -OFFSET_SCALE <= cy < OFFSET_SCALE,
        ;
        if cx * cx + cy * cy <= OFFSET_SCALE * OFFSET_SCALE {
            return (cx, cy);
        }
        j = j + 1;
    }
    (0, 0)
}

impl Move {
    /// Starting point of every ship of the move, in sub-units, ship `k` at
    /// position `k`.
    pub fn start_positions(&self) -> (r: Vec<(i128, i128)>)
        ensures
            r@.len() == self.armada_size,
            forall|k: int| 0 <= k < r@.len() ==> (r@[k].0 as int, r@[k].1 as int) == ship_start(*self, k),
            forall|k: int|
                0 <= k < r@.len() ==> -0x8000_0000_0000 <= #[trigger] r@[k].0 <= 0x1_0000_0000_0000 && -0x8000_0000_0000
                    <= r@[k].1 <= 0x1_0000_0000_0000,
    {
        let n = self.armada_size as u64;
        let draws = seeded_draws(PLACEMENT_SEED, n * PLACEMENT_TRIES);
        let fx = (self.from.x as i128) * OFFSET_SCALE;
        let fy = (self.from.y as i128) * OFFSET_SCALE;
        let fr = self.from.radius as i128;
        let mut out: Vec<(i128, i128)> = Vec::new();
        let mut k: u64 = 0;
        while k < n
            invariant
                n == self.armada_size,
                draws@ == placement(*self),
                draws@.len() == n * PLACEMENT_TRIES,
                fx == self.from.x * OFFSET_SCALE,
                fy == self.from.y * OFFSET_SCALE,
                fr == self.from.radius,
                k <= n,
                out@.len() == k,
                forall|i: int| 0 <= i < k ==> (out@[i].0 as int, out@[i].1 as int) == ship_start(*self, i),
                forall|i: int|
                    0 <= i < k ==> -0x8000_0000_0000 <= #[trigger] out@[i].0 <= 0x1_0000_0000_0000 && -0x8000_0000_0000
                        <= out@[i].1 <= 0x1_0000_0000_0000,
            decreases n - k,
        {
            assert(k * PLACEMENT_TRIES + PLACEMENT_TRIES <= n * PLACEMENT_TRIES) by (nonlinear_arith)
                requires
                    k < n,
            ;
            let c = offset_exec(&draws, k * PLACEMENT_TRIES);
            assert(-0x8000_0000_0000 <= fr * c.0 <= 0x8000_0000_0000) by (nonlinear_arith)
                requires
                    0 <= fr <= 0xffff_ffff,
                    -OFFSET_SCALE <= c.0 <= OFFSET_SCALE,
            ;
            assert(-0x8000_0000_0000 <= fr * c.1 <= 0x8000_0000_0000) by (nonlinear_arith)
                requires
                    0 <= fr <= 0xffff_ffff,
                    -OFFSET_SCALE <= c.1 <= OFFSET_SCALE,
            ;
            out.push((fx + fr * c.0, fy + fr * c.1));
            k = k + 1;
        }
        out
    }
}

/// Arrival tick of every ship of the move, ship `k` at position `k`.
pub fn ship_arrivals(m: &Move) -> (r: Vec<u64>)
    ensures
        r@.len() == m.armada_size,
        forall|k: int| 0 <= k < r@.len() ==> r@[k] == ship_arrival(*m, k),
{
    let starts = m.start_positions();
    let tx = (m.to.x as i128) * OFFSET_SCALE;
    let ty = (m.to.y as i128) * OFFSET_SCALE;
    let mut out: Vec<u64> = Vec::new();
    let mut k: usize = 0;
    while k < starts.len()
        invariant
            starts@.len() == m.armada_size,
            forall|i: int| 0 <= i < starts@.len() ==> (starts@[i].0 as int, starts@[i].1 as int) == ship_start(*m, i),
            forall|i: int|
                0 <= i < starts@.len() ==> -0x8000_0000_0000 <= #[trigger] starts@[i].0 <= 0x1_0000_0000_0000
                    && -0x8000_0000_0000 <= starts@[i].1 <= 0x1_0000_0000_0000,
            tx == m.to.x * OFFSET_SCALE,
            ty == m.to.y * OFFSET_SCALE,
            k <= starts@.len(),
            out@.len() == k,
            forall|i: int| 0 <= i < k ==> out@[i] == ship_arrival(*m, i),
        decreases starts@.len() - k,
    {
        let (sx, sy) = starts[k];
        let sq = square_distance_exec(sx, sy, tx, ty);
        let d = isqrt(sq) as i128;
        let t = travel_ticks_exec(d - (m.to.radius as i128) * OFFSET_SCALE);
        out.push(m.time as u64 + t);
        k = k + 1;
    }
    out
}

} // verus!