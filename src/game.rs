//! The game's data model: players, planets, moves, the galaxy snapshot and
//! the game aggregate, together with the arithmetic of planet values.
//!
//! A planet's value is held in fixed point: one ship is `VALUE_PER_SHIP`
//! value units, and a planet's multiplier is held in thousandths. With these
//! scales the production of a planet in one tick, `multiplier * radius / 3600`
//! ships, is exactly `multiplier * radius` value units.

use vstd::prelude::*;
use crate::map::GameMap;

verus! {

/// Ticks that a planet of radius 1 and multiplier 1 needs to produce a ship.
pub const TICKS_PER_SHIP: u64 = 3600;

/// Multipliers are held in thousandths.
pub const MULTIPLIER_SCALE: u64 = 1000;

/// Value units in one ship: `TICKS_PER_SHIP * MULTIPLIER_SCALE`.
pub const VALUE_PER_SHIP: i128 = 3_600_000;

/// Planet values are kept within `-VALUE_LIMIT ..= VALUE_LIMIT` (2^100 units).
pub const VALUE_LIMIT: i128 = 0x10_0000_0000_0000_0000_0000_0000;

/// Ticks a ship needs to travel one unit of distance (a speed of half a unit
/// per tick).
pub const TICKS_PER_DISTANCE: u64 = 2;

/// Wall-clock milliseconds in one tick.
pub const MILLIS_PER_TICK: u128 = 17;

#[derive(Clone, Debug)]
pub struct Player {
    pub index: usize,
    pub name: String,
}

/// A planet of a running galaxy.
#[derive(Clone, Copy, Debug, PartialEq, Eq, Structural)]
pub struct Planet {
    /// Position of the planet in the galaxy's planet list.
    pub index: usize,
    pub x: u32,
    pub y: u32,
    pub radius: u32,
    /// Production multiplier, in thousandths.
    pub multiplier: u32,
    /// Strength of the planet, in value units (`VALUE_PER_SHIP` per ship).
    pub value: i128,
    /// Index of the owning player; `None` for a neutral planet.
    pub possession: Option<usize>,
}

/// An order to send half of a planet's ships to another planet.
#[derive(Clone, Copy, Debug, PartialEq, Eq, Structural)]
pub struct Move {
    /// The source planet as it was when the move was created.
    pub from: Planet,
    /// The destination planet as it was when the move was created.
    pub to: Planet,
    pub armada_size: u32,
    /// Tick at which the move is issued.
    pub time: u32,
}

#[derive(Clone, Debug)]
pub struct Galaxy {
    pub time: u32,
    pub planets: Vec<Planet>,
    pub moves: Vec<Move>,
}

#[derive(Clone, Copy, Debug, PartialEq, Eq, Structural)]
pub struct GameConfig {
    pub min_players: u32,
}

#[derive(Clone, Debug)]
pub struct Game {
    pub map: GameMap,
    pub state: Option<Galaxy>,
    pub players: Vec<Player>,
    pub config: GameConfig,
}

/// Why an operation on a game was refused.
#[derive(Clone, Copy, Debug, PartialEq, Eq, Structural)]
pub enum GameError {
    /// Every player slot of the map is taken.
    GameFull,
    /// The game has been started before.
    AlreadyStarted,
    /// Fewer players have joined than the configuration asks for.
    InsufficientPlayers,
    /// The game has not been started.
    NotStarted,
    /// The source planet of a move is not the player's.
    NotOwner,
    /// A move from a planet to itself.
    SelfMove,
    /// A planet index outside the galaxy.
    UnknownPlanet,
    /// A galaxy needs at least two players.
    TooFewPlayers,
    /// A planet's ownership table has no entry for the player count.
    UnsupportedPlayerCount,
    /// A planet's ownership table names this (one-based) player slot, which
    /// no player holds.
    MissingPlayer(u32),
}

impl Game {
    pub fn new(map: GameMap, config: GameConfig) -> (r: Game)
        ensures
            r.map == map,
            r.state.is_none(),
            r.players@.len() == 0,
            r.config == config,
    {
        Game { map, state: None, players: Vec::new(), config }
    }
}

/// `x` brought into `-VALUE_LIMIT ..= VALUE_LIMIT`.
pub open spec fn clamp_value(x: int) -> int {
    if x > VALUE_LIMIT {
        VALUE_LIMIT as int
    } else if x < -VALUE_LIMIT {
        -VALUE_LIMIT
    } else {
        x
    }
}

/// Value units that a planet produces in `elapsed` ticks.
pub open spec fn production(p: Planet, elapsed: nat) -> int {
    p.multiplier * p.radius * elapsed
}

/// The planet after `elapsed` ticks of production.
pub open spec fn grown(p: Planet, elapsed: nat) -> Planet {
    Planet { value: clamp_value(p.value + production(p, elapsed)) as i128, ..p }
}

/// A planet whose value lies within the value limits.
pub open spec fn planet_in_range(p: Planet) -> bool {
    -VALUE_LIMIT <= p.value <= VALUE_LIMIT
}

/// The planet after `ships` ships of `attacker` have landed on it: an enemy
/// fleet is subtracted and takes the planet over when the value drops below
/// zero, leaving the remainder as its value; the owner's own fleet is added.
pub open spec fn landed(p: Planet, attacker: usize, ships: nat) -> Planet {
    if p.possession != Some(attacker) {
        let v = clamp_value(p.value - ships * VALUE_PER_SHIP);
        if v < 0 {
            Planet { value: (-v) as i128, possession: Some(attacker), ..p }
        } else {
            Planet { value: v as i128, ..p }
        }
    } else {
        Planet { value: clamp_value(p.value + ships * VALUE_PER_SHIP) as i128, ..p }
    }
}

/// The number of whole ships on a planet, as a `u32` count (none when the
/// value is not positive, `u32::MAX` at most).
pub open spec fn whole_ships(p: Planet) -> nat {
    if p.value <= 0 {
        0
    } else if p.value / VALUE_PER_SHIP > u32::MAX {
        u32::MAX as nat
    } else {
        (p.value / VALUE_PER_SHIP) as nat
    }
}

/// Ships that a move from this planet sends: half of its whole ships.
pub open spec fn armada_of(p: Planet) -> nat {
    whole_ships(p) / 2
}

/// The source planet after the armada has left it.
pub open spec fn launched(p: Planet, armada: nat) -> Planet {
    Planet { value: clamp_value(p.value - armada * VALUE_PER_SHIP) as i128, ..p }
}

/// Adds the production of `elapsed` ticks to the planet's value.
pub fn grow(p: &mut Planet, elapsed: u32)
    requires
        planet_in_range(*old(p)),
    ensures
        *final(p) == grown(*old(p), elapsed as nat),
        planet_in_range(*final(p)),
{
    let m = p.multiplier as i128;
    let r = p.radius as i128;
    let t = elapsed as i128;
    assert(0 <= m * r <= 0xffff_ffff * 0xffff_ffff) by (nonlinear_arith)
        requires
            0 <= m <= 0xffff_ffff,
            0 <= r <= 0xffff_ffff,
    ;
    let rate = m * r;
    assert(0 <= rate * t <= 0xffff_ffff * 0xffff_ffff * 0xffff_ffff) by (nonlinear_arith)
        requires
            0 <= rate <= 0xffff_ffff * 0xffff_ffff,
            0 <= t <= 0xffff_ffff,
    ;
    let amount = rate * t;
    let v = p.value + amount;
    p.value = if v > VALUE_LIMIT { VALUE_LIMIT } else { v };
}

/// Lands `ships` ships of player `attacker` on the planet.
pub fn land(p: &mut Planet, attacker: usize, ships: u64)
    requires
        planet_in_range(*old(p)),
    ensures
        *final(p) == landed(*old(p), attacker, ships as nat),
        planet_in_range(*final(p)),
{
    let amount = (ships as i128) * VALUE_PER_SHIP;
    if p.possession != Some(attacker) {
        let v = p.value - amount;
        let v = if v < -VALUE_LIMIT { -VALUE_LIMIT } else { v };
        if v < 0 {
            p.value = -v;
            p.possession = Some(attacker);
        } else {
            p.value = v;
        }
    } else {
        let v = p.value + amount;
        p.value = if v > VALUE_LIMIT { VALUE_LIMIT } else { v };
    }
}

/// Half of the planet's whole ships: the size of an armada sent from it.
pub fn armada_size(p: &Planet) -> (r: u32)
    ensures
        r as nat == armada_of(*p),
{
    if p.value <= 0 {
        0
    } else {
        let ships = p.value / VALUE_PER_SHIP;
        if ships > 0xffff_ffff {
            0xffff_ffff / 2
        } else {
            (ships as u32) / 2
        }
    }
}

/// Takes an armada of `armada` ships off the planet.
pub fn launch(p: &mut Planet, armada: u32)
    requires
        planet_in_range(*old(p)),
    ensures
        *final(p) == launched(*old(p), armada as nat),
        planet_in_range(*final(p)),
{
    let v = p.value - (armada as i128) * VALUE_PER_SHIP;
    p.value = if v < -VALUE_LIMIT { -VALUE_LIMIT } else { v };
}

} // verus!
