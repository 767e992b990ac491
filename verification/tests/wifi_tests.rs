use nipart::{ErrorKind, Interface, WifiConfig, WifiPhyInterface, HIDE_PASSWORD_STR};

fn test_wifi() -> WifiConfig {
    let mut wifi_cfg = WifiConfig::default();
    wifi_cfg.ssid = "test-wifi".into();
    wifi_cfg.password = Some("12345678".into());
    wifi_cfg
}

#[test]
fn test_hide_secrets_in_debug_wificfg() {
    let wifi_cfg = test_wifi();
    let debug_str = wifi_cfg.to_debug_string();
    println!("Debug string {:?}", debug_str);
    assert!(!debug_str.contains("12345678"));
}

#[test]
fn test_hide_secrets_in_display_wificfg() {
    let wifi_cfg = test_wifi();
    let debug_str = wifi_cfg.to_display_string();
    println!("Display string {}", debug_str);
    assert!(!debug_str.contains("12345678"));
}

#[test]
fn test_wifi_phy_hold_wifi_cfg_with_other_base_iface() {
    let mut cfg = WifiConfig::default();
    cfg.ssid = "Test-WIFI".into();
    cfg.password = Some("12345678".into());
    cfg.base_iface = Some("wlan1".into());
    let mut iface = Interface::WifiPhy(Box::new(WifiPhyInterface::new("wlan0".into(), cfg)));
    let result = iface.sanitize(None);
    assert!(result.is_err());
    if let Err(e) = result {
        assert_eq!(e.kind(), ErrorKind::InvalidArgument);
        assert!(e.msg.contains("wlan1"));
    }
}

#[test]
fn wifi_phy_binds_its_configuration() {
    let mut cfg = test_wifi();
    cfg.bssid = Some("aa:bb:cc:dd:ee:ff".into());
    cfg.signal_dbm = Some(-60);
    let mut iface = Interface::WifiPhy(Box::new(WifiPhyInterface::new("wlan0".into(), cfg)));
    assert!(iface.sanitize(None).is_ok());
    match iface {
        Interface::WifiPhy(p) => {
            let w = p.wifi.unwrap();
            assert_eq!(w.base_iface.as_deref(), Some("wlan0"));
            assert_eq!(w.bssid.as_deref(), Some("AA:BB:CC:DD:EE:FF"));
            assert_eq!(w.signal_dbm, None);
        }
        _ => panic!("kind changed"),
    }
}

#[test]
fn signal_percent_formula() {
    assert_eq!(WifiConfig::signal_dbm_to_percent(-100), 0);
    assert_eq!(WifiConfig::signal_dbm_to_percent(-120), 0);
    assert_eq!(WifiConfig::signal_dbm_to_percent(-75), 50);
    assert_eq!(WifiConfig::signal_dbm_to_percent(-51), 98);
    assert_eq!(WifiConfig::signal_dbm_to_percent(-50), 100);
    assert_eq!(WifiConfig::signal_dbm_to_percent(-10), 100);
    let mut w = test_wifi();
    w.signal_dbm = Some(-80);
    w.sanitize_signal();
    assert_eq!(w.signal_percent, Some(40));
}

#[test]
fn hiding_secrets_twice_is_hiding_once() {
    let mut w = test_wifi();
    w.hide_secrets();
    assert_eq!(w.password.as_deref(), Some(HIDE_PASSWORD_STR));
    let text = w.to_debug_string();
    w.hide_secrets();
    assert_eq!(w.password.as_deref(), Some(HIDE_PASSWORD_STR));
    assert_eq!(w.to_debug_string(), text);
    assert_eq!(test_wifi().to_debug_string(), text);
    w.remove_secrets();
    assert_eq!(w.password, None);
}

#[test]
fn wifi_merge_takes_unset_properties_from_old() {
    let old = test_wifi();
    let mut new = WifiConfig::default();
    new.generation = Some(6);
    let m = old.merge(&new);
    assert_eq!(m.ssid, "test-wifi");
    assert_eq!(m.password.as_deref(), Some("12345678"));
    assert_eq!(m.generation, Some(6));
}
