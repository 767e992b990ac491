use nipart::{
    BondConfig, BondFailOverMac, BondInterface, BondMode, BondOptions, BondPortConfig, ErrorKind, Interface,
};

fn port(name: &str, queue_id: Option<u16>) -> BondPortConfig {
    let mut p = BondPortConfig::new(name.into());
    p.queue_id = queue_id;
    p
}

#[test]
fn bond_without_mode_is_refused() {
    let mut iface = Interface::Bond(Box::new(BondInterface::new("bond0".into(), BondConfig::default())));
    let e = iface.sanitize(None).unwrap_err();
    assert_eq!(e.kind(), ErrorKind::InvalidArgument);
    assert!(e.msg.contains("bond0"));
}

#[test]
fn bond_ports_are_sorted() {
    let mut conf = BondConfig::default();
    conf.mode = Some(BondMode::ActiveBackup);
    conf.port = Some(vec!["eth2".into(), "eth1".into(), "eth10".into()]);
    conf.ports_config = Some(vec![port("eth2", None), port("eth1", None)]);
    let mut b = BondInterface::new("bond0".into(), conf);
    assert!(b.sanitize_iface_specfic(None).is_ok());
    let c = b.bond.unwrap();
    assert_eq!(c.port.unwrap(), vec!["eth1".to_string(), "eth10".to_string(), "eth2".to_string()]);
    let names: Vec<String> = c.ports_config.unwrap().into_iter().map(|p| p.name).collect();
    assert_eq!(names, vec!["eth1".to_string(), "eth2".to_string()]);
}

#[test]
fn bond_ports_sharing_queue_id_are_refused() {
    let mut conf = BondConfig::default();
    conf.mode = Some(BondMode::RoundRobin);
    conf.ports_config = Some(vec![port("eth1", Some(3)), port("eth2", Some(0)), port("eth3", Some(3))]);
    let mut b = BondInterface::new("bond0".into(), conf);
    let e = b.sanitize_iface_specfic(None).unwrap_err();
    assert_eq!(e.kind(), ErrorKind::InvalidArgument);
    assert!(e.msg.contains("eth1") && e.msg.contains("eth3"));
    let mut conf = BondConfig::default();
    conf.mode = Some(BondMode::RoundRobin);
    conf.ports_config = Some(vec![port("eth1", Some(0)), port("eth2", Some(0))]);
    let mut b = BondInterface::new("bond0".into(), conf);
    assert!(b.sanitize_iface_specfic(None).is_ok());
}

#[test]
fn bond_option_checks() {
    let mut opts = BondOptions::new();
    opts.lacp_rate = Some(nipart::BondLacpRate::Fast);
    assert_eq!(opts.validate_lacp_opts(BondMode::ActiveBackup).unwrap_err().kind(), ErrorKind::InvalidArgument);
    assert!(opts.validate_lacp_opts(BondMode::LACP).is_ok());

    let mut opts = BondOptions::new();
    opts.miimon = Some(100);
    opts.arp_interval = Some(100);
    assert!(opts.validate_miimon_and_arp_interval().is_err());
    assert!(opts.validate_arp_interval(None, BondMode::ALB).is_err());
    assert!(opts.validate_arp_interval(None, BondMode::ActiveBackup).is_ok());

    let mut opts = BondOptions::new();
    opts.ad_actor_system = Some("01:00:5e:00:00:01".into());
    assert!(opts.validate_ad_actor_system_mac_address().is_err());
    opts.ad_actor_system = Some("02:00:5e:00:00:01".into());
    assert!(opts.validate_ad_actor_system_mac_address().is_ok());

    let mut opts = BondOptions::new();
    opts.arp_interval = Some(0);
    opts.arp_ip_target = Some("192.0.2.1".into());
    assert!(opts.validate_arp_interval(None, BondMode::ActiveBackup).is_err());

    let mut opts = BondOptions::new();
    opts.balance_slb = Some(true);
    assert!(opts.validate_balance_slb(None, BondMode::XOR).is_err());
    opts.xmit_hash_policy = Some(nipart::BondXmitHashPolicy::VlanSrcMac);
    assert!(opts.validate_balance_slb(None, BondMode::XOR).is_ok());
}

#[test]
fn bond_mac_dropped_in_restricted_mode() {
    let mut conf = BondConfig::default();
    conf.mode = Some(BondMode::ActiveBackup);
    let mut opts = BondOptions::new();
    opts.fail_over_mac = Some(BondFailOverMac::Active);
    opts.ad_actor_system = Some("02:aa:bb:cc:dd:ee".into());
    conf.options = Some(opts);
    let mut b = BondInterface::new("bond0".into(), conf);
    b.base.mac_address = Some("00:11:22:33:44:55".into());
    assert!(b.sanitize_iface_specfic(None).is_ok());
    assert_eq!(b.base.mac_address, None);
    assert_eq!(b.bond.unwrap().options.unwrap().ad_actor_system.as_deref(), Some("02:AA:BB:CC:DD:EE"));
}

#[test]
fn bond_port_display() {
    let mut p = port("eth1", Some(2));
    p.priority = Some(-5);
    assert_eq!(p.to_display_string(), "BondPortConfig { name: eth1, priority: -5, queue_id: 2 }");
    assert_eq!(port("eth2", None).to_display_string(), "BondPortConfig { name: eth2, priority: 0, queue_id: 0 }");
    assert!(port("eth2", None).is_name_only());
}
