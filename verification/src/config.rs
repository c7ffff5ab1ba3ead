//! Shared run-state: the active flag, the RPC endpoint path and the two
//! lifecycle probabilities, plus startup option loading and the control
//! operations that toggle the active flag.

use vstd::prelude::*;

verus! {

/// Probabilities are held in parts per million of certainty.
pub const PROBABILITY_SCALE: u32 = 1_000_000;

/// A probability in `[0, 1]`, as parts per million.
#[derive(Copy, Clone, Debug, PartialEq, Eq, Structural)]
pub struct Probability {
    pub ppm: u32,
}

impl Probability {
    /// A well-formed probability does not exceed certainty.
    pub open spec fn wf(&self) -> bool {
        self.ppm <= PROBABILITY_SCALE
    }

    /// Construct from parts per million.
    pub fn from_ppm(ppm: u32) -> (r: Probability)
        requires
            ppm <= PROBABILITY_SCALE,
        ensures
            r.ppm == ppm,
            r.wf(),
    {
        Probability { ppm }
    }
}

/// The run-state shared between the scheduler and the control surface.
#[derive(Clone, Debug)]
pub struct Config {
    pub rpc_path: String,
    pub active: bool,
    pub open_probability: Probability,
    pub close_probability: Probability,
}

impl Config {
    pub open spec fn wf(&self) -> bool {
        self.open_probability.wf() && self.close_probability.wf()
    }

    /// Toggle the active flag; everything else is untouched.
    pub fn set_active(&mut self, active: bool)
        ensures
            final(self).active == active,
            final(self).rpc_path == old(self).rpc_path,
            final(self).open_probability == old(self).open_probability,
            final(self).close_probability == old(self).close_probability,
    {
        self.active = active;
    }
}

impl Default for Config {
    /// The fixed startup defaults: active, the conventional endpoint path,
    /// a one-percent open probability and a 0.05-percent close probability.
    fn default() -> (c: Config)
        ensures
            c.active == true,
            c.rpc_path@ == "lightning-rpc"@,
            c.open_probability.ppm == 10_000,
            c.close_probability.ppm == 500,
            c.wf(),
    {
        Config {
            rpc_path: String::from_str("lightning-rpc"),
            active: true,
            open_probability: Probability { ppm: 10_000 },
            close_probability: Probability { ppm: 500 },
        }
    }
}

/// A startup option's value as handed over by the plugin host: the typed
/// value it carried, or nothing when the option was not given.
#[derive(Clone, Debug, PartialEq)]
pub enum ConfigValue {
    Boolean(bool),
    Text(String),
    Integer(i64),
    /// A value of some other shape (the host also knows list-valued options).
    Other,
    Absent,
}

/// Failure of startup option loading, fatal before the scheduler begins.
#[derive(Copy, Clone, Debug, PartialEq, Eq, Structural)]
pub enum ConfigError {
    /// The on-load option carried something other than a boolean.
    InvalidActiveFlag,
}

/// Apply the recognized startup options to the configuration.
///
/// The on-load flag must be a boolean if present (anything else is a fatal
/// startup error, leaving the configuration untouched) and defaults to
/// inactive when absent. A missing or wrongly-typed endpoint path falls back
/// silently to the configured default.
pub fn load_configuration(config: &mut Config, on_load: ConfigValue, rpc_path: ConfigValue) -> (r:
    Result<(), ConfigError>)
    ensures
        match on_load {
            ConfigValue::Boolean(b) => r is Ok && final(config).active == b,
            ConfigValue::Absent => r is Ok && final(config).active == false,
            _ => r == Err::<(), ConfigError>(ConfigError::InvalidActiveFlag) && *final(config)
                == *old(config),
        },
        r is Ok ==> match rpc_path {
            ConfigValue::Text(s) => final(config).rpc_path == s,
            _ => final(config).rpc_path == old(config).rpc_path,
        },
        final(config).open_probability == old(config).open_probability,
        final(config).close_probability == old(config).close_probability,
{
    let active = match on_load {
        ConfigValue::Boolean(b) => b,
        ConfigValue::Absent => false,
        _ => {
            return Err(ConfigError::InvalidActiveFlag);
        },
    };
    config.active = active;
    match rpc_path {
        ConfigValue::Text(s) => {
            config.rpc_path = s;
        },
        _ => {},
    }
    Ok(())
}

} // verus!
