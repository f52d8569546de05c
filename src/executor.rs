//! The game executor: the authoritative owner of a game, which admits
//! players, starts the game, steps its galaxy through time and applies the
//! players' moves.

use vstd::prelude::*;
use crate::buckets::{BucketView, ModBuckets};
use crate::game::{armada_of, launch, launched, Galaxy, Game, GameError, Move, Player, MILLIS_PER_TICK};
use crate::map::{galaxy_from, slots_of};
use crate::simulation::{advance, lemma_step_moves_stops, sim_of, sim_wf, step_state};

verus! {

/// What the executor reports to the layers around it.
#[derive(Clone, Debug)]
pub enum GameEvent {
    Player(Player),
    Move(Move),
    Start,
}

/// The events that the executor has emitted and that nobody has taken yet,
/// oldest first.
#[derive(Clone, Debug)]
pub struct GameEventSource {
    events: Vec<GameEvent>,
}

impl GameEventSource {
    pub closed spec fn view(&self) -> Seq<GameEvent> {
        self.events@
    }

    pub fn new() -> (r: GameEventSource)
        ensures
            r.view() == Seq::<GameEvent>::empty(),
    {
        GameEventSource { events: Vec::new() }
    }

    /// Emits an event.
    pub fn emit_event(&mut self, event: GameEvent)
        ensures
            final(self).view() == old(self).view().push(event),
    {
        self.events.push(event);
    }

    /// Takes every emitted event, oldest first.
    pub fn take_events(&mut self) -> (r: Vec<GameEvent>)
        ensures
            r@ == old(self).view(),
            final(self).view() == Seq::<GameEvent>::empty(),
    {
        let mut taken: Vec<GameEvent> = Vec::new();
        std::mem::swap(&mut taken, &mut self.events);
        taken
    }
}

/// Relies on `std::time::SystemTime::now`: milliseconds since the Unix epoch
/// (0 for a clock set before it). Nothing is promised of the value.
#[verifier::external_body]
fn system_millis() -> u128 {
    std::time::SystemTime::now().duration_since(std::time::UNIX_EPOCH).map(|d| d.as_millis()).unwrap_or(0)
}

/// Milliseconds since the Unix epoch, by the system clock.
pub fn get_millis() -> u128 {
    system_millis()
}

/// Ticks from `start` to `now` (milliseconds), as a `u32` count: none when
/// `now` is not later, `u32::MAX` at most.
pub open spec fn ticks_between(start: u128, now: u128) -> nat {
    if now <= start {
        0
    } else if (now - start) / MILLIS_PER_TICK as int > u32::MAX {
        u32::MAX as nat
    } else {
        ((now - start) / MILLIS_PER_TICK as int) as nat
    }
}

/// Ticks from `start` to `now` (milliseconds).
pub fn ticks_since(start: u128, now: u128) -> (r: u32)
    ensures
        r == ticks_between(start, now),
{
    if now <= start {
        0
    } else {
        let t = (now - start) / MILLIS_PER_TICK;
        if t > 0xffff_ffff {
            0xffff_ffff
        } else {
            t as u32
        }
    }
}

/// A game together with the state of its simulation.
pub struct GameExecutor {
    /// Wall-clock milliseconds at which the game started.
    pub start_time: u128,
    pub game: Game,
    pub event_source: GameEventSource,
    /// Number of moves of the galaxy's history that have been applied.
    pub completed_move_idx: usize,
    /// Arrivals scheduled by the applied moves.
    pub modification_buckets: ModBuckets,
}

/// A game whose galaxy, if any, can be stepped with `completed` moves of its
/// history applied and `pending` arrivals scheduled.
pub open spec fn game_wf(game: Game, completed: nat, pending: Seq<BucketView>) -> bool {
    match game.state {
        None => completed == 0 && pending.len() == 0,
        Some(g) => sim_wf(sim_of(g, completed, pending), g.moves@, g.planets@.len()),
    }
}

/// `b` is `a` stepped to tick `target`.
pub open spec fn stepped(a: GameExecutor, b: GameExecutor, target: nat) -> bool {
    &&& b.start_time == a.start_time
    &&& b.game.map == a.game.map
    &&& b.game.players == a.game.players
    &&& b.game.config == a.game.config
    &&& b.event_source == a.event_source
    &&& match a.game.state {
        None => b.game.state is None && b.completed() == a.completed() && b.pending() == a.pending(),
        Some(g) => match b.game.state {
            Some(h) => h.moves == g.moves && sim_of(h, b.completed(), b.pending()) == step_state(
                sim_of(g, a.completed(), a.pending()),
                g.moves@,
                target,
                g.planets@.len(),
            ),
            None => false,
        },
    }
}

/// The move that `create_move` builds from planets `from` and `to` of a
/// stepped executor at tick `time`.
pub open spec fn move_result(e: GameExecutor, from: u16, to: u16, time: u32) -> Result<Move, GameError> {
    match e.game.state {
        None => Err(GameError::NotStarted),
        Some(g) => if from >= g.planets@.len() || to >= g.planets@.len() {
            Err(GameError::UnknownPlanet)
        } else {
            Ok(
                Move {
                    from: g.planets@[from as int],
                    to: g.planets@[to as int],
                    armada_size: armada_of(g.planets@[from as int]) as u32,
                    time,
                },
            )
        },
    }
}

/// `b` is executor `s`, already stepped to the move's tick, after `add_move`
/// of move `m` by `player` returned `r`: the move is refused without any
/// change, or its armada leaves the source planet and the move joins the
/// history ahead of any move issued later and is emitted.
pub open spec fn move_added(s: GameExecutor, b: GameExecutor, player: Player, m: Move, r: Result<(), GameError>) -> bool {
    match s.game.state {
        None => r == Err::<(), GameError>(GameError::NotStarted) && b == s,
        Some(g) => match move_check(g, player, m) {
            Err(e) => r == Err::<(), GameError>(e) && b == s,
            Ok(_) => {
                let i = m.from.index as int;
                &&& r == Ok::<(), GameError>(())
                &&& b.game.state matches Some(h) && h.time == g.time && h.planets@ == g.planets@.update(
                    i,
                    launched(g.planets@[i], m.armada_size as nat),
                ) && h.moves@ == g.moves@.insert(s.completed() as int, m)
                &&& b.completed() == s.completed()
                &&& b.pending() == s.pending()
                &&& b.event_source.view() == s.event_source.view().push(GameEvent::Move(m))
            },
        },
    }
}

/// Two executors in the same simulation state: the same galaxy (time,
/// planets and history), applied moves, scheduled arrivals and events.
pub open spec fn same_state(a: GameExecutor, b: GameExecutor) -> bool {
    &&& a.completed() == b.completed()
    &&& a.pending() == b.pending()
    &&& a.event_source.view() == b.event_source.view()
    &&& match (a.game.state, b.game.state) {
        (None, None) => true,
        (Some(g), Some(h)) => g.time == h.time && g.planets@ == h.planets@ && g.moves@ == h.moves@,
        _ => false,
    }
}

/// The check that `add_move` makes of a move of `player` on a stepped galaxy.
pub open spec fn move_check(g: Galaxy, player: Player, m: Move) -> Result<(), GameError> {
    if m.from.index >= g.planets@.len() || m.to.index >= g.planets@.len() {
        Err(GameError::UnknownPlanet)
    } else if g.planets@[m.from.index as int].possession != Some(player.index) || m.from.possession != Some(
        player.index,
    ) {
        Err(GameError::NotOwner)
    } else if m.from.index == m.to.index {
        Err(GameError::SelfMove)
    } else {
        Ok(())
    }
}

impl GameExecutor {
    /// Number of moves of the history that have been applied.
    pub open spec fn completed(&self) -> nat {
        self.completed_move_idx as nat
    }

    /// The scheduled arrivals.
    pub open spec fn pending(&self) -> Seq<BucketView> {
        self.modification_buckets.view()
    }

    pub open spec fn wf(&self) -> bool {
        game_wf(self.game, self.completed(), self.pending())
    }

    /// An executor for a game, with nothing applied or scheduled yet.
    pub fn from_game(game: Game) -> (r: GameExecutor)
        ensures
            r.game == game,
            r.start_time == 0,
            r.completed() == 0,
            r.pending().len() == 0,
            r.event_source.view().len() == 0,
            game.state is None ==> r.wf(),
    {
        GameExecutor {
            start_time: 0,
            game,
            event_source: GameEventSource::new(),
            completed_move_idx: 0,
            modification_buckets: ModBuckets::new(),
        }
    }

    /// Replaces the game by a later state of it.
    pub fn set_game(&mut self, game: Game)
        requires
            game_wf(game, old(self).completed(), old(self).pending()),
        ensures
            final(self).game == game,
            final(self).start_time == old(self).start_time,
            final(self).event_source == old(self).event_source,
            final(self).completed() == old(self).completed(),
            final(self).pending() == old(self).pending(),
            final(self).wf(),
    {
        self.game = game;
    }

    /// Admits a player under the next player index, while the map has a free
    /// slot.
    pub fn add_player(&mut self, player: Player) -> (r: Result<Player, GameError>)
        requires
            old(self).wf(),
        ensures
            final(self).wf(),
            final(self).start_time == old(self).start_time,
            final(self).event_source == old(self).event_source,
            final(self).game.map == old(self).game.map,
            final(self).game.state == old(self).game.state,
            final(self).game.config == old(self).game.config,
            final(self).completed() == old(self).completed(),
            final(self).pending() == old(self).pending(),
            ({
                let joined = Player { index: old(self).game.players@.len() as usize, ..player };
                if slots_of(old(self).game.map) > old(self).game.players@.len() {
                    r == Ok::<Player, GameError>(joined) && final(self).game.players@ == old(self).game.players@.push(joined)
                } else {
                    r == Err::<Player, GameError>(GameError::GameFull) && final(self).game.players == old(self).game.players
                }
            }),
    {
        if self.game.map.max_players() > self.game.players.len() {
            let index = self.game.players.len();
            let name = player.name.clone();
            self.game.players.push(Player { index, name: player.name });
            Ok(Player { index, name })
        } else {
            Err(GameError::GameFull)
        }
    }

    /// Starts the game: generates the galaxy from the map for the players,
    /// records the start time and emits `Start`.
    pub fn start_game(&mut self) -> (r: Result<(), GameError>)
        requires
            old(self).wf(),
        ensures
            final(self).wf(),
            final(self).game.map == old(self).game.map,
            final(self).game.players == old(self).game.players,
            final(self).game.config == old(self).game.config,
            final(self).completed() == old(self).completed(),
            final(self).pending() == old(self).pending(),
            if old(self).game.state is Some {
                r == Err::<(), GameError>(GameError::AlreadyStarted) && *final(self) == *old(self)
            } else if old(self).game.players@.len() < old(self).game.config.min_players {
                r == Err::<(), GameError>(GameError::InsufficientPlayers) && *final(self) == *old(self)
            } else {
                match galaxy_from(old(self).game.map, old(self).game.players@) {
                    Err(e) => r == Err::<(), GameError>(e) && *final(self) == *old(self),
                    Ok(ps) => r == Ok::<(), GameError>(()) && final(self).game.state == Some(
                        Galaxy { time: 0, planets: final(self).game.state->Some_0.planets, moves: final(self).game.state->Some_0.moves },
                    ) && final(self).game.state->Some_0.planets@ == ps && final(self).game.state->Some_0.moves@.len() == 0
                        && final(self).event_source.view() == old(self).event_source.view().push(GameEvent::Start),
                }
            },
    {
        if self.game.state.is_some() {
            Err(GameError::AlreadyStarted)
        } else if self.game.players.len() < self.game.config.min_players as usize {
            Err(GameError::InsufficientPlayers)
        } else {
            match self.game.map.to_galaxy(&self.game.players) {
                Err(e) => Err(e),
                Ok(g) => {
                    self.game.state = Some(g);
                    self.start_time = get_millis();
                    self.event_source.emit_event(GameEvent::Start);
                    Ok(())
                },
            }
        }
    }

    /// Steps the galaxy, if the game has started, to tick `target`.
    pub fn step_to(&mut self, target: u32)
        requires
            old(self).wf(),
            old(self).game.state matches Some(g) ==> g.time <= target,
        ensures
            final(self).wf(),
            stepped(*old(self), *final(self), target as nat),
    {
        let state = self.game.state.take();
        match state {
            Some(mut g) => {
                advance(&mut g, &mut self.modification_buckets, &mut self.completed_move_idx, target);
                self.game.state = Some(g);
            },
            None => {},
        }
    }

    /// Current tick by the system clock.
    pub fn get_time(&self) -> (r: u32)
        ensures
            exists|now: u128| r == ticks_between(self.start_time, now),
    {
        ticks_since(self.start_time, get_millis())
    }

    /// Steps the galaxy to tick `time` and builds a move from planet `from`
    /// to planet `to` that sends half of the source's whole ships.
    pub fn create_move_at(&mut self, from: u16, to: u16, time: u32) -> (r: Result<Move, GameError>)
        requires
            old(self).wf(),
            old(self).game.state matches Some(g) ==> g.time <= time,
        ensures
            final(self).wf(),
            stepped(*old(self), *final(self), time as nat),
            r == move_result(*final(self), from, to, time),
    {
        self.step_to(time);
        match &self.game.state {
            None => Err(GameError::NotStarted),
            Some(g) => {
                if from as usize >= g.planets.len() || to as usize >= g.planets.len() {
                    Err(GameError::UnknownPlanet)
                } else {
                    let source = g.planets[from as usize];
                    Ok(Move { from: source, to: g.planets[to as usize], armada_size: crate::game::armada_size(&source), time })
                }
            },
        }
    }

    /// Builds a move from planet `from` to planet `to` at the current tick
    /// of the system clock (never earlier than the galaxy's time).
    pub fn create_move(&mut self, from: u16, to: u16) -> (r: Result<Move, GameError>)
        requires
            old(self).wf(),
        ensures
            final(self).wf(),
            match old(self).game.state {
                None => r == Err::<Move, GameError>(GameError::NotStarted) && stepped(*old(self), *final(self), 0),
                Some(g) => exists|t: u32|
                    g.time <= t && stepped(*old(self), *final(self), t as nat) && r == move_result(*final(self), from, to, t),
            },
    {
        let now = self.get_time();
        let time = match &self.game.state {
            Some(g) => if now < g.time {
                g.time
            } else {
                now
            },
            None => now,
        };
        self.create_move_at(from, to, time)
    }

    /// Steps the galaxy to the move's tick, checks that the move is the
    /// player's, then takes the armada off its source planet, records the
    /// move in the history (ahead of any move issued later) and emits it.
    pub fn add_move(&mut self, player: &Player, game_move: Move) -> (r: Result<(), GameError>)
        requires
            old(self).wf(),
            old(self).game.state matches Some(g) ==> g.time <= game_move.time,
        ensures
            final(self).wf(),
            final(self).start_time == old(self).start_time,
            final(self).game.map == old(self).game.map,
            final(self).game.players == old(self).game.players,
            final(self).game.config == old(self).game.config,
            exists|s: GameExecutor|
                #[trigger] stepped(*old(self), s, game_move.time as nat) && move_added(s, *final(self), *player, game_move, r),
    {
        self.step_to(game_move.time);
        // The executor at the move's tick: the witness of the postcondition.
        let ghost s = *self;
        let state = self.game.state.take();
        match state {
            None => {
                self.game.state = None;
                Err(GameError::NotStarted)
            },
            Some(mut g) => {
                proof {
                    lemma_step_moves_stops(
                        sim_of(old(self).game.state->Some_0, old(self).completed(), old(self).pending()),
                        g.moves@,
                        old(self).game.state->Some_0.time as nat,
                        game_move.time as nat,
                        g.planets@.len(),
                    );
                }
                let n = g.planets.len();
                let from = game_move.from.index;
                if from >= n || game_move.to.index >= n {
                    self.game.state = Some(g);
                    return Err(GameError::UnknownPlanet);
                }
                if g.planets[from].possession != Some(player.index) || game_move.from.possession != Some(player.index) {
                    self.game.state = Some(g);
                    return Err(GameError::NotOwner);
                }
                if from == game_move.to.index {
                    self.game.state = Some(g);
                    return Err(GameError::SelfMove);
                }
                let mut p = g.planets[from];
                launch(&mut p, game_move.armada_size);
                g.planets[from] = p;
                g.moves.insert(self.completed_move_idx, game_move);
                self.game.state = Some(g);
                self.event_source.emit_event(GameEvent::Move(game_move));
                Ok(())
            },
        }
    }
}

} // verus!
