use argononed::fan::{FanDirective, FanState};
use argononed::steps::{StepTable, TempSpeedPair};
use argononed::temperature::Temperature;

fn pair(temperature: i16, fan_speed: u8) -> TempSpeedPair {
    TempSpeedPair { temperature, fan_speed }
}

fn three_step_table() -> StepTable {
    StepTable::new(vec![pair(40, 10), pair(60, 40), pair(80, 80)]).unwrap()
}

#[test]
fn target_is_first_entry_strictly_above_sample() {
    let table = three_step_table();
    assert_eq!(table.target_level(Temperature::from_degrees(35)), 10);
    assert_eq!(table.target_level(Temperature::from_degrees(45)), 40);
    assert_eq!(table.target_level(Temperature::from_degrees(65)), 80);
    assert_eq!(table.target_level(Temperature::from_degrees(79)), 80);
}

#[test]
fn sample_at_or_above_all_thresholds_falls_to_zero() {
    let table = three_step_table();
    assert_eq!(table.target_level(Temperature::from_degrees(80)), 0);
    assert_eq!(table.target_level(Temperature::from_degrees(125)), 0);
}

#[test]
fn single_entry_table_above_threshold_falls_to_zero() {
    // A table without an unbounded final threshold: a hot sample falls
    // through to 0 rather than to the highest configured level.
    let table = StepTable::new(vec![pair(50, 20)]).unwrap();
    assert_eq!(table.target_level(Temperature::from_degrees(55)), 0);
}

#[test]
fn boundary_sample_equal_to_threshold_selects_band_below() {
    let table = three_step_table();
    // Exactly 40 degrees does not select the 40-threshold entry (level 10):
    // the comparison is strict, so the 60-threshold entry answers.
    assert_eq!(table.target_level(Temperature::from_degrees(40)), 40);
    assert_eq!(table.target_level(Temperature::from_degrees(60)), 80);
    let single = StepTable::new(vec![pair(50, 20)]).unwrap();
    assert_eq!(single.target_level(Temperature::from_degrees(50)), 0);
    // A fraction of a degree below the threshold still selects it.
    assert_eq!(single.target_level(Temperature { millidegrees: 49_999 }), 20);
}

#[test]
fn entries_are_sorted_after_load() {
    let table = StepTable::new(vec![pair(80, 80), pair(40, 10), pair(60, 40)]).unwrap();
    assert_eq!(table.len(), 3);
    assert_eq!(table.entry(0), pair(40, 10));
    assert_eq!(table.entry(1), pair(60, 40));
    assert_eq!(table.entry(2), pair(80, 80));
    // The lookup behaves as if the table had been written sorted.
    assert_eq!(table.target_level(Temperature::from_degrees(45)), 40);
}

#[test]
fn sorting_keeps_the_order_of_equal_thresholds() {
    let table = StepTable::new(vec![pair(70, 5), pair(50, 99), pair(50, 20)]).unwrap();
    assert_eq!(table.entry(0), pair(50, 99));
    assert_eq!(table.entry(1), pair(50, 20));
    assert_eq!(table.entry(2), pair(70, 5));
    // The first of the two equal thresholds answers the lookup.
    assert_eq!(table.target_level(Temperature::from_degrees(45)), 99);
}

#[test]
fn hysteresis_delays_only_drops() {
    let mut state = FanState::new();
    assert_eq!(state.current_level, 0);
    // Rising or equal targets apply immediately.
    assert!(!state.apply(40));
    assert_eq!(state.current_level, 40);
    assert!(!state.apply(40));
    assert!(!state.apply(80));
    // A strict drop is flagged for one extra interval of delay.
    assert!(state.apply(10));
    assert_eq!(state.current_level, 10);
}

#[test]
fn same_sample_twice_is_stable() {
    // Feeding the same temperature repeatedly, with no pending drop, yields
    // the same target and never a hysteresis delay after the first.
    let table = three_step_table();
    let mut state = FanState::new();
    let first = state.plan(&table, Temperature::from_degrees(55));
    let second = state.plan(&table, Temperature::from_degrees(55));
    assert_eq!(first.level, 40);
    assert_eq!(second.level, 40);
    assert!(!second.extra_delay);
    assert_eq!(state.current_level, 40);
}

#[test]
fn falling_temperature_holds_one_extra_interval() {
    // Samples at consecutive intervals; a drop holds the old level for one
    // extra interval, so three samples make four per-interval levels.
    let table = three_step_table();
    let mut state = FanState::new();
    let samples = [35i16, 65, 45];
    let mut per_interval: Vec<u8> = Vec::new();
    for s in samples {
        let before = state.current_level;
        let directive: FanDirective = state.plan(&table, Temperature::from_degrees(s));
        if directive.extra_delay {
            per_interval.push(before);
        }
        per_interval.push(directive.level);
    }
    assert_eq!(per_interval, vec![10, 80, 80, 40]);
}
