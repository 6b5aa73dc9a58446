use argononed::config::{resolve, ConfigError, FanConfig, FanMode};
use argononed::pulse::{classify_pulse_count, decoder_poll, PulseAction};
use argononed::steps::{StepTable, TempSpeedPair};

fn pair(temperature: i16, fan_speed: u8) -> TempSpeedPair {
    TempSpeedPair { temperature, fan_speed }
}

#[test]
fn pulse_bands() {
    assert_eq!(classify_pulse_count(0), PulseAction::NoAction);
    assert_eq!(classify_pulse_count(1), PulseAction::NoAction);
    assert_eq!(classify_pulse_count(2), PulseAction::Reboot);
    assert_eq!(classify_pulse_count(3), PulseAction::Reboot);
    assert_eq!(classify_pulse_count(4), PulseAction::PowerOff);
    assert_eq!(classify_pulse_count(5), PulseAction::PowerOff);
    assert_eq!(classify_pulse_count(6), PulseAction::NoAction);
    assert_eq!(classify_pulse_count(200), PulseAction::NoAction);
}

#[test]
fn decoder_exits_on_termination_without_acting() {
    let poll = decoder_poll(true, 3);
    assert!(poll.exit);
    assert_eq!(poll.action, PulseAction::NoAction);
    let poll = decoder_poll(false, 4);
    assert!(!poll.exit);
    assert_eq!(poll.action, PulseAction::PowerOff);
}

#[test]
fn empty_step_list_is_a_configuration_error() {
    assert_eq!(StepTable::new(vec![]).err(), Some(ConfigError::EmptyStepConfig));
    let config = FanConfig {
        dynamic: true,
        const_fan_speed: None,
        step: Some(vec![]),
        delay_on_change: None,
    };
    assert!(matches!(resolve(config), Err(ConfigError::EmptyStepConfig)));
    let config = FanConfig { dynamic: true, const_fan_speed: None, step: None, delay_on_change: None };
    assert!(matches!(resolve(config), Err(ConfigError::EmptyStepConfig)));
}

#[test]
fn constant_mode_needs_a_constant_speed() {
    let config = FanConfig {
        dynamic: false,
        const_fan_speed: Some(55),
        step: None,
        delay_on_change: None,
    };
    assert!(matches!(resolve(config), Ok(FanMode::Constant(55))));
    let config = FanConfig { dynamic: false, const_fan_speed: None, step: None, delay_on_change: None };
    assert!(matches!(resolve(config), Err(ConfigError::NoConstantSpeed)));
}

#[test]
fn dynamic_mode_sorts_steps_and_takes_the_delay() {
    let config = FanConfig {
        dynamic: true,
        const_fan_speed: None,
        step: Some(vec![pair(80, 80), pair(40, 10)]),
        delay_on_change: Some(5),
    };
    match resolve(config) {
        Ok(FanMode::Dynamic { table, delay_secs }) => {
            assert_eq!(delay_secs, 5);
            assert_eq!(table.len(), 2);
            assert_eq!(table.entry(0), pair(40, 10));
            assert_eq!(table.entry(1), pair(80, 80));
        },
        _ => panic!("expected dynamic mode"),
    }
}

#[test]
fn delay_defaults_to_thirty_seconds() {
    let config = FanConfig {
        dynamic: true,
        const_fan_speed: None,
        step: Some(vec![pair(40, 10)]),
        delay_on_change: None,
    };
    match resolve(config) {
        Ok(FanMode::Dynamic { delay_secs, .. }) => assert_eq!(delay_secs, 30),
        _ => panic!("expected dynamic mode"),
    }
}

#[test]
fn error_messages_describe_the_flaw() {
    assert_eq!(
        ConfigError::NoConstantSpeed.message(),
        "No const_fan_speed given when dynamic fan speed is set to false"
    );
    assert_eq!(
        ConfigError::EmptyStepConfig.message(),
        "Empty temperature-fanspeed step configuration"
    );
}
