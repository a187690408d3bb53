//! Startup configuration for the network join, and the rule that picks
//! an authentication mode from it.

use vstd::prelude::*;

verus! {

/// Network credentials supplied at startup; both fields come from
/// compile-time configuration.
pub struct Config {
    pub wifi_ssid: &'static str,
    pub wifi_psk: &'static str,
}

/// How the network join should authenticate.
#[derive(PartialEq, Eq, Structural, Clone, Copy, Debug)]
pub enum AuthKind {
    Wpa2Personal,
    Open,
}

/// Why a configuration cannot be used.
#[derive(PartialEq, Eq, Structural, Clone, Copy, Debug)]
pub enum ConfigError {
    MissingSsid,
}

/// Picks the authentication mode for the configured network: a missing
/// network name is rejected, and an empty passphrase selects an open
/// (unauthenticated) join instead of WPA2.
pub fn auth_plan(config: &Config) -> (r: Result<AuthKind, ConfigError>)
    ensures
        config.wifi_ssid@.len() == 0 <==> r == Err::<AuthKind, ConfigError>(
            ConfigError::MissingSsid,
        ),
        config.wifi_ssid@.len() != 0 && config.wifi_psk@.len() == 0 ==> r == Ok::<
            AuthKind,
            ConfigError,
        >(AuthKind::Open),
        config.wifi_ssid@.len() != 0 && config.wifi_psk@.len() != 0 ==> r == Ok::<
            AuthKind,
            ConfigError,
        >(AuthKind::Wpa2Personal),
{
    if config.wifi_ssid.is_empty() {
        Err(ConfigError::MissingSsid)
    } else if config.wifi_psk.is_empty() {
        Ok(AuthKind::Open)
    } else {
        Ok(AuthKind::Wpa2Personal)
    }
}

} // verus!
