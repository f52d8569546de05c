use ipg_core::executor::{GameEvent, GameExecutor};
use ipg_core::game::{Game, GameConfig, GameError, Planet as GalaxyPlanet, Player, VALUE_PER_SHIP};
use ipg_core::geometry::ship_arrivals;
use ipg_core::map::{GameMap, MapSize, Planet};

fn duel_map(second_value: u32, second_multiplier: u32) -> GameMap {
    GameMap {
        size: MapSize { x: 2000, y: 100 },
        name: "duel".to_string(),
        planets: vec![
            Planet { x: 0, y: 0, start_value: 100, radius: 10, possession: vec![1, 1], multiplier: 1000 },
            Planet {
                x: 1000,
                y: 0,
                start_value: second_value,
                radius: 10,
                possession: vec![2, 2],
                multiplier: second_multiplier,
            },
        ],
    }
}

fn player(name: &str) -> Player {
    Player { index: 0, name: name.to_string() }
}

fn started(map: GameMap) -> (GameExecutor, Player, Player) {
    let mut e = GameExecutor::from_game(Game::new(map, GameConfig { min_players: 2 }));
    let a = e.add_player(player("ann")).unwrap();
    let b = e.add_player(player("bob")).unwrap();
    e.start_game().unwrap();
    (e, a, b)
}

fn planets(e: &GameExecutor) -> Vec<GalaxyPlanet> {
    e.game.state.as_ref().unwrap().planets.clone()
}

#[test]
fn duel_launch_halves_source_at_issue_tick() {
    let (mut e, a, _) = started(duel_map(50, 1000));
    let m = e.create_move_at(0, 1, 0).unwrap();
    assert_eq!(m.armada_size, 50);
    assert_eq!(m.time, 0);
    e.add_move(&a, m).unwrap();
    assert_eq!(planets(&e)[0].value, 50 * VALUE_PER_SHIP);
}

#[test]
fn duel_arrival_window_follows_distance() {
    let (mut e, _, _) = started(duel_map(50, 1000));
    let m = e.create_move_at(0, 1, 0).unwrap();
    assert_eq!(m.first_arrival_time(), 1960);
    assert_eq!(m.end_time(), 2040);
    let arrivals = ship_arrivals(&m);
    assert_eq!(arrivals.len(), 50);
    for t in &arrivals {
        assert!(*t >= 1960 && *t <= 2000, "arrival {}", t);
    }
}

#[test]
fn duel_defender_holds_with_its_production() {
    let (mut e, a, _) = started(duel_map(50, 1000));
    let m = e.create_move_at(0, 1, 0).unwrap();
    e.add_move(&a, m).unwrap();
    e.step_to(2040);
    let ps = planets(&e);
    // 50 ships landed on 50 ships plus 2040 ticks of production (10_000 units a tick).
    assert_eq!(ps[1].possession, Some(1));
    assert_eq!(ps[1].value, 10_000 * 2040);
    assert_eq!(ps[0].value, 50 * VALUE_PER_SHIP + 10_000 * 2040);
}

#[test]
fn duel_attacker_takes_planet_once_arrivals_exceed_defence() {
    let (mut e, a, _) = started(duel_map(40, 0));
    let m = e.create_move_at(0, 1, 0).unwrap();
    e.add_move(&a, m).unwrap();
    e.step_to(1959);
    assert_eq!(planets(&e)[1].possession, Some(1));
    assert_eq!(planets(&e)[1].value, 40 * VALUE_PER_SHIP);
    e.step_to(2040);
    let ps = planets(&e);
    assert_eq!(ps[1].possession, Some(0));
    assert_eq!(ps[1].value, 10 * VALUE_PER_SHIP);
}

#[test]
fn same_requests_give_same_planets() {
    let run = || {
        let (mut e, a, b) = started(duel_map(50, 1000));
        let m = e.create_move_at(0, 1, 10).unwrap();
        e.add_move(&a, m).unwrap();
        let m = e.create_move_at(1, 0, 500).unwrap();
        e.add_move(&b, m).unwrap();
        let mut seen = Vec::new();
        for t in [700u32, 1990, 2100, 3000] {
            e.step_to(t);
            seen.push(planets(&e));
        }
        seen
    };
    assert_eq!(run(), run());
}

#[test]
fn step_to_current_tick_changes_nothing() {
    let (mut e, a, _) = started(duel_map(50, 1000));
    e.step_to(300);
    let m = e.create_move_at(0, 1, 300).unwrap();
    e.add_move(&a, m).unwrap();
    let before = planets(&e);
    e.step_to(300);
    assert_eq!(planets(&e), before);
    assert_eq!(e.game.state.as_ref().unwrap().time, 300);
    assert_eq!(e.completed_move_idx, 1);
}

#[test]
fn applied_move_is_not_applied_again() {
    let (mut e, a, _) = started(duel_map(50, 1000));
    let m = e.create_move_at(0, 1, 100).unwrap();
    e.add_move(&a, m).unwrap();
    e.step_to(150);
    assert_eq!(e.completed_move_idx, 1);
    let after_first = planets(&e);
    e.step_to(150);
    e.step_to(150);
    assert_eq!(e.completed_move_idx, 1);
    assert_eq!(planets(&e), after_first);
    assert_eq!(after_first[0].value, 50 * VALUE_PER_SHIP + 10_000 * 150);
}

#[test]
fn armada_is_half_of_whole_ships() {
    let mut map = duel_map(50, 1000);
    map.planets[0].start_value = 101;
    let (mut e, a, _) = started(map);
    let m = e.create_move_at(0, 1, 0).unwrap();
    assert_eq!(m.armada_size, 50);
    assert_eq!(ship_arrivals(&m).len(), 50);
    e.add_move(&a, m).unwrap();
    assert_eq!(planets(&e)[0].value, 51 * VALUE_PER_SHIP);
}

#[test]
fn growth_is_the_same_over_one_or_two_steps() {
    let (mut one, _, _) = started(duel_map(50, 1000));
    let (mut two, _, _) = started(duel_map(50, 1000));
    one.step_to(3000);
    two.step_to(1000);
    two.step_to(3000);
    assert_eq!(planets(&one), planets(&two));
    assert_eq!(planets(&one)[0].value, 100 * VALUE_PER_SHIP + 1000 * 10 * 3000);
}

#[test]
fn start_emits_start_and_move_emits_move() {
    let (mut e, a, _) = started(duel_map(50, 1000));
    let m = e.create_move_at(0, 1, 0).unwrap();
    e.add_move(&a, m).unwrap();
    let events = e.event_source.take_events();
    assert_eq!(events.len(), 2);
    assert!(matches!(events[0], GameEvent::Start));
    assert!(matches!(events[1], GameEvent::Move(mv) if mv == m));
    assert_eq!(e.event_source.take_events().len(), 0);
}

#[test]
fn players_get_sequential_indices_until_full() {
    let mut e = GameExecutor::from_game(Game::new(duel_map(50, 1000), GameConfig { min_players: 2 }));
    let a = e.add_player(player("ann")).unwrap();
    let b = e.add_player(Player { index: 7, name: "bob".to_string() }).unwrap();
    assert_eq!((a.index, b.index), (0, 1));
    assert_eq!(b.name, "bob");
    assert!(matches!(e.add_player(player("cid")), Err(GameError::GameFull)));
    assert_eq!(e.game.players.len(), 2);
}

#[test]
fn start_refuses_twice_and_with_too_few_players() {
    let mut e = GameExecutor::from_game(Game::new(duel_map(50, 1000), GameConfig { min_players: 2 }));
    e.add_player(player("ann")).unwrap();
    assert_eq!(e.start_game(), Err(GameError::InsufficientPlayers));
    e.add_player(player("bob")).unwrap();
    assert_eq!(e.start_game(), Ok(()));
    assert_eq!(e.start_game(), Err(GameError::AlreadyStarted));
}

#[test]
fn moves_before_start_are_refused() {
    let mut e = GameExecutor::from_game(Game::new(duel_map(50, 1000), GameConfig { min_players: 2 }));
    assert_eq!(e.create_move_at(0, 1, 0).unwrap_err(), GameError::NotStarted);
}

#[test]
fn moves_are_checked() {
    let (mut e, a, b) = started(duel_map(50, 1000));
    assert_eq!(e.create_move_at(0, 9, 0).unwrap_err(), GameError::UnknownPlanet);
    let m = e.create_move_at(0, 1, 0).unwrap();
    assert_eq!(e.add_move(&b, m), Err(GameError::NotOwner));
    let own = e.create_move_at(0, 0, 0).unwrap();
    assert_eq!(e.add_move(&a, own), Err(GameError::SelfMove));
    let mut far = m;
    far.to.index = 5;
    assert_eq!(e.add_move(&a, far), Err(GameError::UnknownPlanet));
    assert_eq!(planets(&e)[0].value, 100 * VALUE_PER_SHIP);
    assert_eq!(e.game.state.as_ref().unwrap().moves.len(), 0);
}

#[test]
fn galaxy_from_map_copies_planets_and_resolves_owners() {
    let mut map = duel_map(50, 1000);
    map.planets.push(Planet { x: 5, y: 6, start_value: 7, radius: 8, possession: vec![0, 3], multiplier: 250 });
    let players = vec![player("ann"), Player { index: 1, name: "bob".to_string() }];
    let g = map.to_galaxy(&players).unwrap();
    assert_eq!(g.time, 0);
    assert!(g.moves.is_empty());
    assert_eq!(g.planets.len(), 3);
    assert_eq!(g.planets[0].possession, Some(0));
    assert_eq!(g.planets[1].possession, Some(1));
    assert_eq!(g.planets[2].possession, None);
    assert_eq!(
        g.planets[2],
        GalaxyPlanet { index: 2, x: 5, y: 6, radius: 8, multiplier: 250, value: 7 * VALUE_PER_SHIP, possession: None }
    );
    assert_eq!(map.max_players(), 2);
}

#[test]
fn galaxy_from_map_reports_configuration_errors() {
    let map = duel_map(50, 1000);
    assert_eq!(map.to_galaxy(&vec![player("ann")]).unwrap_err(), GameError::TooFewPlayers);
    let four = vec![player("a"), player("b"), player("c"), player("d")];
    assert_eq!(map.to_galaxy(&four).unwrap_err(), GameError::UnsupportedPlayerCount);
    let mut bad = duel_map(50, 1000);
    bad.planets[1].possession = vec![3, 3];
    assert_eq!(bad.to_galaxy(&vec![player("a"), player("b")]).unwrap_err(), GameError::MissingPlayer(3));
}
