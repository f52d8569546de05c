use ipg_core::buckets::{ModBuckets, PlanetDelta};
use ipg_core::executor::{GameEvent, GameEventSource};

#[test]
fn arrivals_merge_per_tick_planet_and_player() {
    let mut b = ModBuckets::new();
    b.add_arrival(50, 1, 0, 3);
    b.add_arrival(50, 1, 0, 3);
    b.add_arrival(50, 1, 2, 3);
    b.add_arrival(50, 0, 2, 3);
    assert_eq!(b.len(), 1);
    let bucket = b.pop_front();
    assert_eq!(bucket.time, 50);
    assert_eq!(bucket.deltas_by_planet.len(), 3);
    assert_eq!(
        bucket.deltas_by_planet[1],
        vec![PlanetDelta { magnitude: 2, possession: 0 }, PlanetDelta { magnitude: 1, possession: 2 }]
    );
    assert_eq!(bucket.deltas_by_planet[0], vec![PlanetDelta { magnitude: 1, possession: 2 }]);
    assert!(bucket.deltas_by_planet[2].is_empty());
    assert_eq!(b.len(), 0);
}

#[test]
fn buckets_come_out_in_tick_order() {
    let mut b = ModBuckets::new();
    for t in [70u64, 20, 45, 20, 90, 45] {
        b.add_arrival(t, 0, 1, 1);
    }
    assert_eq!(b.len(), 4);
    let mut ticks = Vec::new();
    while b.len() > 0 {
        assert_eq!(b.first_time(), {
            let bucket = b.pop_front();
            ticks.push((bucket.time, bucket.deltas_by_planet[0][0].magnitude));
            bucket.time
        });
    }
    assert_eq!(ticks, vec![(20, 2), (45, 2), (70, 1), (90, 1)]);
}

#[test]
fn events_are_taken_oldest_first() {
    let mut source = GameEventSource::new();
    source.emit_event(GameEvent::Start);
    source.emit_event(GameEvent::Start);
    assert_eq!(source.take_events().len(), 2);
    assert!(source.take_events().is_empty());
}
