use sunshade::AuthKind;
use sunshade::Config;
use sunshade::ConfigError;
use sunshade::auth_plan;

#[test]
fn missing_network_name_is_rejected() {
    let config = Config { wifi_ssid: "", wifi_psk: "secret" };
    assert_eq!(auth_plan(&config), Err(ConfigError::MissingSsid));
}

#[test]
fn empty_passphrase_selects_open_join() {
    let config = Config { wifi_ssid: "home", wifi_psk: "" };
    assert_eq!(auth_plan(&config), Ok(AuthKind::Open));
}

#[test]
fn full_credentials_select_wpa2() {
    let config = Config { wifi_ssid: "home", wifi_psk: "secret" };
    assert_eq!(auth_plan(&config), Ok(AuthKind::Wpa2Personal));
}
