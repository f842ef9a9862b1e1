use vstd::prelude::*;

verus! {

/// The only rule-set schema version this daemon accepts.
pub const CONFIG_VERSION: u32 = 1;

/// The rule set: a schema version, and `(pattern, flags)` rules in the order
/// they are applied.
pub struct Config {
    pub version: u32,
    pub items: Vec<(String, String)>,
}

/// Why a rule set is refused at startup.
pub enum ConfigError {
    /// The rule set is written for another schema version.
    VersionMismatch { supported: u32, found: u32 },
}

/// Accepts a loaded rule set only if it is written for the supported schema
/// version; otherwise the daemon must not start.
pub fn check_config(config: Config) -> (r: Result<Config, ConfigError>)
    ensures
        r is Ok <==> config.version == CONFIG_VERSION,
        r matches Ok(c) ==> c == config,
        r matches Err(e) ==> e == (ConfigError::VersionMismatch {
            supported: CONFIG_VERSION,
            found: config.version,
        }),
{
    if config.version != CONFIG_VERSION {
        Err(ConfigError::VersionMismatch { supported: CONFIG_VERSION, found: config.version })
    } else {
        Ok(config)
    }
}

} // verus!
