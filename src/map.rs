//! Map templates and the generation of a galaxy from one.

use vstd::prelude::*;
use crate::game::{planet_in_range, Galaxy, GameError, Player, VALUE_PER_SHIP};
use crate::game;

verus! {

/// A planet of a map template.
#[derive(Clone, Debug)]
pub struct Planet {
    pub x: u32,
    pub y: u32,
    pub start_value: u32,
    pub radius: u32,
    /// Ownership table: entry `k` is the owner for `k + 2` players, either
    /// 0 (neutral) or a one-based player slot.
    pub possession: Vec<u32>,
    /// Production multiplier, in thousandths.
    pub multiplier: u32,
}

#[derive(Clone, Copy, Debug, PartialEq, Eq, Structural)]
pub struct MapSize {
    pub x: u32,
    pub y: u32,
}

/// A map template: the planets of a galaxy before the game starts.
#[derive(Clone, Debug)]
pub struct GameMap {
    pub size: MapSize,
    pub name: String,
    pub planets: Vec<Planet>,
}

/// The owner that the ownership table gives a planet when `n_players`
/// players (at least two) take part.
pub open spec fn owner_for(possession: Seq<u32>, players: Seq<Player>) -> Result<Option<usize>, GameError> {
    let k = players.len() - 2;
    if k >= possession.len() {
        Err(GameError::UnsupportedPlayerCount)
    } else if possession[k] == 0 {
        Ok(None)
    } else if possession[k] - 1 >= players.len() {
        Err(GameError::MissingPlayer(possession[k]))
    } else {
        Ok(Some(players[possession[k] - 1].index))
    }
}

/// The galaxy planet made from map planet `mp` at position `index`.
pub open spec fn planet_from(mp: Planet, index: int, owner: Option<usize>) -> game::Planet {
    game::Planet {
        index: index as usize,
        x: mp.x,
        y: mp.y,
        radius: mp.radius,
        multiplier: mp.multiplier,
        value: (mp.start_value * VALUE_PER_SHIP) as i128,
        possession: owner,
    }
}

/// The galaxy planets made from the first `n` map planets, or the error of
/// the first of them whose ownership cannot be resolved.
pub open spec fn planets_from(mps: Seq<Planet>, players: Seq<Player>, n: nat) -> Result<Seq<game::Planet>, GameError>
    decreases n,
{
    if n == 0 {
        Ok(Seq::empty())
    } else {
        match planets_from(mps, players, (n - 1) as nat) {
            Err(e) => Err(e),
            Ok(s) => match owner_for(mps[n - 1].possession@, players) {
                Err(e) => Err(e),
                Ok(o) => Ok(s.push(planet_from(mps[n - 1], n - 1, o))),
            },
        }
    }
}

/// The initial galaxy of a map for the given players.
pub open spec fn galaxy_from(map: GameMap, players: Seq<Player>) -> Result<Seq<game::Planet>, GameError> {
    if players.len() < 2 {
        Err(GameError::TooFewPlayers)
    } else {
        planets_from(map.planets@, players, map.planets@.len())
    }
}

/// The number of player slots of a map: the width of its first planet's
/// ownership table (none for a map without planets).
pub open spec fn slots_of(map: GameMap) -> nat {
    if map.planets@.len() == 0 {
        0
    } else {
        map.planets@[0].possession@.len()
    }
}

/// Once a map planet's ownership fails to resolve, every longer prefix
/// fails with the same error.
proof fn lemma_planets_from_error(mps: Seq<Planet>, players: Seq<Player>, i: nat, n: nat, e: GameError)
    requires
        i < n,
        n <= mps.len(),
        planets_from(mps, players, i) is Ok,
        owner_for(mps[i as int].possession@, players) == Err::<Option<usize>, GameError>(e),
    ensures
        planets_from(mps, players, n) == Err::<Seq<game::Planet>, GameError>(e),
    decreases n,
{
    if n > i + 1 {
        lemma_planets_from_error(mps, players, i, (n - 1) as nat, e);
    }
}

impl GameMap {
    /// Generates the initial galaxy (time 0, no moves) for the players.
    pub fn to_galaxy(&self, players: &Vec<Player>) -> (r: Result<Galaxy, GameError>)
        ensures
            match (r, galaxy_from(*self, players@)) {
                (Ok(g), Ok(ps)) => g.planets@ == ps && g.time == 0 && g.moves@.len() == 0,
                (Err(e), Err(f)) => e == f,
                _ => false,
            },
            r matches Ok(g) ==> forall|i: int| 0 <= i < g.planets@.len() ==> planet_in_range(#[trigger] g.planets@[i]),
            r matches Ok(g) ==> forall|i: int| 0 <= i < g.planets@.len() ==> (#[trigger] g.planets@[i]).index == i,
    {
        let n_players = players.len();
        if n_players < 2 {
            return Err(GameError::TooFewPlayers);
        }
        let k = n_players - 2;
        let mut planets: Vec<game::Planet> = Vec::new();
        let mut i: usize = 0;
        while i < self.planets.len()
            invariant
                n_players == players@.len(),
                n_players >= 2,
                k == n_players - 2,
                i <= self.planets@.len(),
                planets_from(self.planets@, players@, i as nat) == Ok::<Seq<game::Planet>, GameError>(planets@),
                forall|j: int| 0 <= j < planets@.len() ==> planet_in_range(#[trigger] planets@[j]),
                forall|j: int| 0 <= j < planets@.len() ==> (#[trigger] planets@[j]).index == j,
                planets@.len() == i,
            decreases self.planets@.len() - i,
        {
            let mp = &self.planets[i];
            let owner: Option<usize> = if k >= mp.possession.len() {
                proof {
                    lemma_planets_from_error(self.planets@, players@, i as nat, self.planets@.len(), GameError::UnsupportedPlayerCount);
                }
                return Err(GameError::UnsupportedPlayerCount);
            } else {
                let slot = mp.possession[k];
                if slot == 0 {
                    None
                } else if (slot - 1) as usize >= n_players {
                    proof {
                        lemma_planets_from_error(self.planets@, players@, i as nat, self.planets@.len(), GameError::MissingPlayer(slot));
                    }
                    return Err(GameError::MissingPlayer(slot));
                } else {
                    Some(players[(slot - 1) as usize].index)
                }
            };
            planets.push(game::Planet {
                index: i,
                x: mp.x,
                y: mp.y,
                radius: mp.radius,
                multiplier: mp.multiplier,
                value: (mp.start_value as i128) * VALUE_PER_SHIP,
                possession: owner,
            });
            i = i + 1;
        }
        Ok(Galaxy { time: 0, planets, moves: Vec::new() })
    }

    /// The number of player slots of the map.
    pub fn max_players(&self) -> (r: usize)
        ensures
            r == slots_of(*self),
    {
        if self.planets.len() == 0 {
            0
        } else {
            self.planets[0].possession.len()
        }
    }
}

} // verus!
