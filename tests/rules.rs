use ipg_core::executor::ticks_since;
use ipg_core::game::{armada_size, grow, land, launch, Move, Planet, VALUE_PER_SHIP};
use ipg_core::geometry::{isqrt, ship_arrivals};

fn owned(value_ships: i128, owner: usize) -> Planet {
    Planet { index: 0, x: 0, y: 0, radius: 10, multiplier: 1000, value: value_ships * VALUE_PER_SHIP, possession: Some(owner) }
}

#[test]
fn fewer_attackers_than_defence_leave_owner() {
    let mut p = owned(10, 0);
    land(&mut p, 1, 3);
    assert_eq!(p.possession, Some(0));
    assert_eq!(p.value, 7 * VALUE_PER_SHIP);
}

#[test]
fn equal_attackers_leave_owner_with_nothing() {
    let mut p = owned(10, 0);
    land(&mut p, 1, 10);
    assert_eq!(p.possession, Some(0));
    assert_eq!(p.value, 0);
}

#[test]
fn more_attackers_take_the_planet() {
    let mut p = owned(10, 0);
    land(&mut p, 1, 13);
    assert_eq!(p.possession, Some(1));
    assert_eq!(p.value, 3 * VALUE_PER_SHIP);
}

#[test]
fn owner_ships_reinforce() {
    let mut p = owned(10, 0);
    land(&mut p, 0, 5);
    assert_eq!(p.possession, Some(0));
    assert_eq!(p.value, 15 * VALUE_PER_SHIP);
}

#[test]
fn neutral_planet_is_taken_by_any_player() {
    let mut p = owned(2, 0);
    p.possession = None;
    land(&mut p, 3, 5);
    assert_eq!(p.possession, Some(3));
    assert_eq!(p.value, 3 * VALUE_PER_SHIP);
}

#[test]
fn production_is_multiplier_times_radius_per_tick() {
    let mut p = owned(1, 0);
    p.multiplier = 1500;
    grow(&mut p, 3600);
    // 1.5 * 10 * 3600 / 3600 = 15 ships.
    assert_eq!(p.value, 16 * VALUE_PER_SHIP);
}

#[test]
fn armada_halves_whole_ships() {
    assert_eq!(armada_size(&owned(9, 0)), 4);
    let mut p = owned(9, 0);
    p.value += VALUE_PER_SHIP - 1;
    assert_eq!(armada_size(&p), 4);
    p.value = -5;
    assert_eq!(armada_size(&p), 0);
    let mut q = owned(9, 0);
    launch(&mut q, 4);
    assert_eq!(q.value, 5 * VALUE_PER_SHIP);
}

#[test]
fn integer_square_roots() {
    assert_eq!(isqrt(0), 0);
    assert_eq!(isqrt(15), 3);
    assert_eq!(isqrt(16), 4);
    assert_eq!(isqrt(1 << 98), 1 << 49);
    assert_eq!(isqrt((1 << 98) - 1), (1 << 49) - 1);
}

#[test]
fn clock_ticks_are_seventeen_milliseconds() {
    assert_eq!(ticks_since(1000, 1000 + 17 * 5 + 16), 5);
    assert_eq!(ticks_since(1000, 999), 0);
    assert_eq!(ticks_since(0, u128::MAX), u32::MAX);
}

#[test]
fn ships_spread_over_the_source_disk_reproducibly() {
    let from = Planet { index: 0, x: 0, y: 0, radius: 100, multiplier: 0, value: 0, possession: Some(0) };
    let to = Planet { index: 1, x: 300, y: 0, radius: 10, multiplier: 0, value: 0, possession: None };
    let m = Move { from, to, armada_size: 64, time: 7 };
    let first = ship_arrivals(&m);
    assert_eq!(first, ship_arrivals(&m));
    let lo = *first.iter().min().unwrap();
    let hi = *first.iter().max().unwrap();
    assert!(lo < hi, "every ship arrives at {}", lo);
    assert!(lo >= m.first_arrival_time() && hi <= m.end_time());
    assert_eq!((m.first_arrival_time(), m.end_time()), (7 + 380, 7 + 820));
}

#[test]
fn ships_start_inside_the_source_disk() {
    let from = Planet { index: 0, x: 50, y: 70, radius: 20, multiplier: 0, value: 0, possession: Some(0) };
    let to = Planet { index: 1, x: 300, y: 0, radius: 10, multiplier: 0, value: 0, possession: None };
    let m = Move { from, to, armada_size: 40, time: 0 };
    let starts = m.start_positions();
    assert_eq!(starts.len(), 40);
    assert_eq!(starts, m.start_positions());
    let scale = 32768i128;
    for (x, y) in &starts {
        let dx = x - 50 * scale;
        let dy = y - 70 * scale;
        assert!(dx * dx + dy * dy <= (20 * scale) * (20 * scale));
    }
    assert!(starts.iter().any(|s| *s != starts[0]));
}
