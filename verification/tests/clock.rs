use sd_core::sync::clock::Clock;
use sd_core::sync::timestamp::{NTP64, COUNTER_RANGE, MILLIS_MAX};
use uuid::Uuid;

fn instance(n: u128) -> Uuid {
    Uuid::from_u128(n)
}

#[test]
fn timestamp_is_millis_times_range_plus_counter() {
    let stamp = NTP64::from_parts(3, 7).unwrap();
    assert_eq!(stamp, NTP64(3 * 65536 + 7));
    assert_eq!(stamp.as_u64(), 196615);
    assert_eq!(stamp.millis(), 3);
    assert_eq!(stamp.counter(), 7);
    assert_eq!(COUNTER_RANGE, 65536);
}

#[test]
fn timestamp_parts_beyond_48_bits_are_refused() {
    assert_eq!(NTP64::from_parts(MILLIS_MAX, 65535), Some(NTP64(u64::MAX)));
    assert_eq!(NTP64::from_parts(MILLIS_MAX + 1, 0), None);
}

#[test]
fn wall_clock_reading_saturates() {
    assert_eq!(NTP64::from_wall_clock(0), NTP64(0));
    assert_eq!(NTP64::from_wall_clock(1000), NTP64(65_536_000));
    assert_eq!(NTP64::from_wall_clock(u64::MAX), NTP64(MILLIS_MAX * 65536));
}

#[test]
fn successor_follows_wall_clock_or_counts_up() {
    assert_eq!(NTP64(5).succ(1), Some(NTP64(65536)));
    assert_eq!(NTP64(65536).succ(1), Some(NTP64(65537)));
    assert_eq!(NTP64(70000).succ(0), Some(NTP64(70001)));
    assert_eq!(NTP64(u64::MAX).succ(5), None);
}

#[test]
fn later_of_two_timestamps() {
    assert_eq!(NTP64(4).max(NTP64(9)), NTP64(9));
    assert_eq!(NTP64(9).max(NTP64(4)), NTP64(9));
    assert!(NTP64(9).is_after(&NTP64(4)));
    assert!(!NTP64(4).is_after(&NTP64(4)));
}

#[test]
fn unknown_instance_makes_every_timestamp_new() {
    let clock = Clock::new();
    assert_eq!(clock.get(&instance(1)), None);
    assert!(clock.is_new(&instance(1), NTP64(0)));
}

#[test]
fn observe_raises_the_mark_only() {
    let mut clock = Clock::new();
    clock.observe(&instance(1), NTP64(20));
    assert_eq!(clock.get(&instance(1)), Some(NTP64(20)));
    clock.observe(&instance(1), NTP64(10));
    assert_eq!(clock.get(&instance(1)), Some(NTP64(20)));
    clock.observe(&instance(1), NTP64(20));
    assert_eq!(clock.get(&instance(1)), Some(NTP64(20)));
    clock.observe(&instance(1), NTP64(21));
    assert_eq!(clock.get(&instance(1)), Some(NTP64(21)));
    assert_eq!(clock.get(&instance(2)), None);
}

#[test]
fn is_new_is_strictly_above_the_mark() {
    let mut clock = Clock::new();
    clock.observe(&instance(1), NTP64(20));
    assert!(!clock.is_new(&instance(1), NTP64(19)));
    assert!(!clock.is_new(&instance(1), NTP64(20)));
    assert!(clock.is_new(&instance(1), NTP64(21)));
    assert!(clock.is_new(&instance(2), NTP64(1)));
}

#[test]
fn seed_keeps_the_later_entry_of_an_instance() {
    let clock = Clock::seeded(vec![
        (instance(1), NTP64(5)),
        (instance(2), NTP64(0)),
        (instance(1), NTP64(3)),
    ]);
    assert_eq!(clock.get(&instance(1)), Some(NTP64(3)));
    assert_eq!(clock.get(&instance(2)), Some(NTP64(0)));
    assert!(!clock.is_new(&instance(2), NTP64(0)));
    assert!(clock.is_new(&instance(2), NTP64(1)));
}

#[test]
fn ticks_of_one_instance_strictly_increase_when_interleaved() {
    let mut clock = Clock::new();
    let readings = [5u64, 5, 4, 0, 9, 9, 9, 2, 100, 1];
    let mut last: [Option<NTP64>; 3] = [None, None, None];
    for (turn, now_ms) in readings.iter().cycle().take(300).enumerate() {
        let which = (turn * 7 + turn / 3) % 3;
        let stamp = clock.tick(&instance(which as u128), *now_ms).unwrap();
        if let Some(before) = last[which] {
            assert!(stamp.is_after(&before));
        }
        last[which] = Some(stamp);
        assert_eq!(clock.get(&instance(which as u128)), Some(stamp));
    }
}

#[test]
fn tick_gives_exact_values() {
    let mut clock = Clock::new();
    assert_eq!(clock.tick(&instance(1), 2), Some(NTP64(131072)));
    assert_eq!(clock.tick(&instance(1), 2), Some(NTP64(131073)));
    assert_eq!(clock.tick(&instance(1), 1), Some(NTP64(131074)));
    assert_eq!(clock.tick(&instance(1), 3), Some(NTP64(196608)));
    assert_eq!(clock.tick(&instance(2), 0), Some(NTP64(0)));
    assert_eq!(clock.tick(&instance(2), 0), Some(NTP64(1)));
}

#[test]
fn tick_after_observe_goes_beyond_what_was_observed() {
    let mut clock = Clock::new();
    clock.observe(&instance(1), NTP64(1 << 40));
    assert_eq!(clock.tick(&instance(1), 3), Some(NTP64((1 << 40) + 1)));
}

#[test]
fn exhausted_clock_gives_nothing_and_stays() {
    let mut clock = Clock::seeded(vec![(instance(1), NTP64(u64::MAX))]);
    assert_eq!(clock.tick(&instance(1), 7), None);
    assert_eq!(clock.get(&instance(1)), Some(NTP64(u64::MAX)));
}

#[test]
fn cloned_clock_holds_the_same_marks() {
    let mut clock = Clock::new();
    clock.observe(&instance(1), NTP64(20));
    let copy = clock.clone();
    clock.observe(&instance(1), NTP64(30));
    assert_eq!(copy.get(&instance(1)), Some(NTP64(20)));
    assert_eq!(clock.get(&instance(1)), Some(NTP64(30)));
}
