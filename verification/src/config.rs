//! Configuration data and the rules that turn it into a fan-control mode.
//!
//! The configuration document gives either a constant fan speed or a dynamic
//! policy: a list of temperature/fan-level steps and an optional decision
//! interval.  Reading and decoding the document happens outside this crate;
//! what arrives here are the plain decoded values, and this module decides
//! what they mean — including the two fatal configuration errors.

use vstd::prelude::*;
use crate::steps::{has_threshold, StepTable, TempSpeedPair};

verus! {

/// A fatal flaw in the configuration, reported before any control loop
/// starts.
#[derive(Clone, Copy, Debug, PartialEq, Eq, Structural)]
pub enum ConfigError {
    /// Dynamic control is off but no constant fan speed was given.
    NoConstantSpeed,
    /// Dynamic control is on but the step list is missing or empty.
    EmptyStepConfig,
}

impl ConfigError {
    /// The operator-facing description of the error.
    pub fn message(&self) -> (text: String)
        ensures
            *self == ConfigError::NoConstantSpeed ==> text@
                == "No const_fan_speed given when dynamic fan speed is set to false"@,
            *self == ConfigError::EmptyStepConfig ==> text@
                == "Empty temperature-fanspeed step configuration"@,
    {
        match self {
            ConfigError::NoConstantSpeed => String::from_str(
                "No const_fan_speed given when dynamic fan speed is set to false",
            ),
            ConfigError::EmptyStepConfig => String::from_str(
                "Empty temperature-fanspeed step configuration",
            ),
        }
    }
}

/// The decoded configuration document, as plain values.
pub struct FanConfig {
    /// Whether the fan follows the step table (true) or runs at a constant
    /// speed (false).
    pub dynamic: bool,
    /// The constant speed, required when `dynamic` is false.
    pub const_fan_speed: Option<u8>,
    /// The step entries, in whatever order the document listed them;
    /// required non-empty when `dynamic` is true.
    pub step: Option<Vec<TempSpeedPair>>,
    /// Seconds between fan decisions; 30 when absent.
    pub delay_on_change: Option<u64>,
}

/// What the fan controller is to do, settled once at startup.
pub enum FanMode {
    /// Write this one speed and leave it.
    Constant(u8),
    /// Run the decision loop over the step table at the given interval.
    Dynamic { table: StepTable, delay_secs: u64 },
}

/// The decision interval the configuration calls for: the configured
/// override, or 30 seconds.
pub open spec fn spec_delay_secs(delay_on_change: Option<u64>) -> u64 {
    match delay_on_change {
        Option::Some(d) => d,
        Option::None => 30u64,
    }
}

/// Settle the fan-control mode from the decoded configuration.  Constant
/// mode needs a constant speed; dynamic mode needs a non-empty step list,
/// which is sorted here into the policy table.  Either lack is a fatal
/// configuration error, reported before any loop starts.
pub fn resolve(config: FanConfig) -> (result: Result<FanMode, ConfigError>)
    ensures
        (!config.dynamic && config.const_fan_speed is Some) ==> result
            == Result::<FanMode, ConfigError>::Ok(
            FanMode::Constant(config.const_fan_speed.unwrap()),
        ),
        (!config.dynamic && config.const_fan_speed is None) ==> result
            == Result::<FanMode, ConfigError>::Err(ConfigError::NoConstantSpeed),
        (config.dynamic && (config.step is None || config.step.unwrap()@.len() == 0))
            ==> result == Result::<FanMode, ConfigError>::Err(ConfigError::EmptyStepConfig),
        (config.dynamic && config.step is Some && config.step.unwrap()@.len() > 0) ==> (
        result matches Ok(mode) && (mode matches FanMode::Dynamic { table, delay_secs }
            && table.well_formed()
            && table@.to_multiset() == config.step.unwrap()@.to_multiset()
            && (forall|t: i16| #[trigger] table@.filter(has_threshold(t))
                == config.step.unwrap()@.filter(has_threshold(t)))
            && delay_secs == spec_delay_secs(config.delay_on_change))),
{
    if !config.dynamic {
        match config.const_fan_speed {
            Some(speed) => Ok(FanMode::Constant(speed)),
            None => Err(ConfigError::NoConstantSpeed),
        }
    } else {
        let delay_secs = match config.delay_on_change {
            Some(d) => d,
            None => 30,
        };
        match config.step {
            None => Err(ConfigError::EmptyStepConfig),
            Some(entries) => {
                match StepTable::new(entries) {
                    Ok(table) => Ok(FanMode::Dynamic { table, delay_secs }),
                    Err(e) => Err(e),
                }
            },
        }
    }
}

} // verus!
