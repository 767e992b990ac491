use nipart::{
    BaseInterface, InterfaceIpv4, BondConfig, BondInterface, BondMode, DummyInterface, EthernetInterface, Interface, InterfaceState,
    InterfaceType, Interfaces, MergedInterfaces, MergedNetworkState, MergedRoutes, NetworkState, NipartstateApplyOption,
    RouteEntry, RouteState, Routes, WifiConfig, WifiPhyInterface, HIDE_PASSWORD_STR,
};

fn eth(name: &str) -> Interface {
    Interface::Ethernet(Box::new(EthernetInterface::new(BaseInterface::new(name.into(), InterfaceType::Ethernet), None)))
}

fn dummy(name: &str) -> Interface {
    Interface::Dummy(Box::new(DummyInterface::new(name.into())))
}

#[test]
fn interfaces_push_replaces_same_name() {
    let mut ifaces = Interfaces::new();
    assert!(ifaces.is_empty());
    ifaces.push(eth("eth1"));
    ifaces.push(dummy("dummy0"));
    let mut again = eth("eth1");
    again.base_iface_mut().mtu = Some(1400);
    ifaces.push(again);
    assert_eq!(ifaces.kernel_ifaces.len(), 2);
    assert_eq!(ifaces.get("eth1", None).unwrap().base_iface().mtu, Some(1400));
    assert!(ifaces.get("eth9", None).is_none());
    let removed = ifaces.remove("dummy0", None).unwrap();
    assert_eq!(removed.name(), "dummy0");
    assert_eq!(ifaces.kernel_ifaces.len(), 1);
    assert_eq!(ifaces.insert_order.len(), 3);
}

#[test]
fn interfaces_merge_keeps_old_and_new_names() {
    let mut old = Interfaces::new();
    old.push(eth("eth1"));
    old.push(eth("eth2"));
    let mut new = Interfaces::new();
    let mut e1 = eth("eth1");
    e1.base_iface_mut().mtu = Some(9000);
    new.push(e1);
    new.push(dummy("dummy0"));
    let merged = old.merge(&new).unwrap();
    let names: Vec<String> = merged.to_vec().iter().map(|i| i.name().to_string()).collect();
    assert!(names.contains(&"eth1".to_string()));
    assert!(names.contains(&"eth2".to_string()));
    assert!(names.contains(&"dummy0".to_string()));
    assert_eq!(merged.get("eth1", None).unwrap().base_iface().mtu, Some(9000));
}

#[test]
fn veth_state_follows_to_its_peer() {
    let mut old = Interfaces::new();
    let mut v1 = BaseInterface::new("veth1".into(), InterfaceType::Ethernet);
    v1.state = InterfaceState::Up;
    old.push(Interface::Ethernet(Box::new(EthernetInterface::new_veth(v1, "veth1p"))));
    old.push(eth("veth1p"));
    let mut new = Interfaces::new();
    let mut v1_down = BaseInterface::new("veth1".into(), InterfaceType::Ethernet);
    v1_down.state = InterfaceState::Down;
    new.push(Interface::Ethernet(Box::new(EthernetInterface::new_veth(v1_down, "veth1p"))));
    let merged = old.merge(&new).unwrap();
    assert_eq!(merged.get("veth1p", None).unwrap().base_iface().state, InterfaceState::Down);
}

#[test]
fn network_state_secrets_are_split_out() {
    let mut cfg = WifiConfig::default();
    cfg.ssid = "test-wifi".into();
    cfg.password = Some("12345678".into());
    let mut state = NetworkState::new();
    assert!(state.is_empty());
    assert_eq!(state.version, Some(1));
    state.ifaces.push(Interface::WifiPhy(Box::new(WifiPhyInterface::new("wlan0".into(), cfg))));
    assert!(!state.is_empty());
    let secrets = state.hide_secrets();
    match state.ifaces.get("wlan0", None).unwrap() {
        Interface::WifiPhy(p) => {
            assert_eq!(p.wifi.as_ref().unwrap().password.as_deref(), Some(HIDE_PASSWORD_STR))
        }
        _ => panic!("kind changed"),
    }
    match secrets.ifaces.get("wlan0", None).unwrap() {
        Interface::WifiPhy(p) => assert_eq!(p.wifi.as_ref().unwrap().password.as_deref(), Some("12345678")),
        _ => panic!("kind changed"),
    }
}

#[test]
fn merged_bond_ports_get_up_priority() {
    let mut desired = Interfaces::new();
    let mut conf = BondConfig::default();
    conf.mode = Some(BondMode::RoundRobin);
    conf.port = Some(vec!["eth1".into()]);
    desired.push(Interface::Bond(Box::new(BondInterface::new("bond0".into(), conf))));
    let mut port = eth("eth1");
    port.base_iface_mut().controller = Some("bond0".into());
    port.base_iface_mut().controller_type = Some(InterfaceType::Bond);
    desired.push(port);
    let mut current = Interfaces::new();
    current.push(eth("eth1"));
    let merged = MergedInterfaces::new(desired, current).unwrap();
    let eth1 = merged.get_iface("eth1", &InterfaceType::Ethernet).unwrap();
    assert_eq!(eth1.for_apply.as_ref().unwrap().base_iface().up_priority, 1);
    let apply = merged.gen_state_for_apply();
    assert!(apply.get("bond0", None).is_some());
    assert!(apply.get("eth1", None).is_some());
}

#[test]
fn merged_state_verify_finds_missing_interface() {
    let mut desired = NetworkState::new();
    desired.ifaces.push(dummy("dummy0"));
    let current = NetworkState::new();
    let merged = MergedNetworkState::new(desired, current, NipartstateApplyOption::new()).unwrap();
    let e = merged.verify(&NetworkState::new()).unwrap_err();
    assert_eq!(e.kind(), nipart::ErrorKind::VerificationError);
}

fn route(dst: &str, via: &str) -> RouteEntry {
    let mut r = RouteEntry::default();
    r.destination = Some(dst.into());
    r.next_hop_iface = Some(via.into());
    r
}

#[test]
fn merged_routes_refuse_absent_next_hop() {
    let mut desired_ifaces = Interfaces::new();
    let mut gone = eth("eth1");
    gone.base_iface_mut().state = InterfaceState::Absent;
    desired_ifaces.push(gone);
    let mut current_ifaces = Interfaces::new();
    current_ifaces.push(eth("eth1"));
    let merged_ifaces = MergedInterfaces::new(desired_ifaces, current_ifaces).unwrap();
    let mut desired = Routes::default();
    desired.config = Some(vec![route("198.51.100.0/24", "eth1")]);
    let e = MergedRoutes::new(desired, Routes::default(), &merged_ifaces).unwrap_err();
    assert_eq!(e.kind(), nipart::ErrorKind::InvalidArgument);
}

#[test]
fn merged_routes_group_by_interface() {
    let mut current_ifaces = Interfaces::new();
    let mut e1 = eth("eth1");
    e1.base_iface_mut().ipv4 = Some(InterfaceIpv4 { enabled: Some(true), dhcp: None, addresses: None });
    current_ifaces.push(e1);
    let merged_ifaces = MergedInterfaces::new(Interfaces::new(), current_ifaces).unwrap();
    let mut desired = Routes::default();
    desired.config = Some(vec![route("198.51.100.0/24", "eth1")]);
    let mut current = Routes::default();
    let mut old = route("203.0.113.0/24", "eth1");
    old.state = None;
    current.config = Some(vec![old]);
    let mut absent = RouteEntry::default();
    absent.destination = Some("203.0.113.0/24".into());
    absent.state = Some(RouteState::Absent);
    desired.config.as_mut().unwrap().push(absent);
    let m = MergedRoutes::new(desired, current, &merged_ifaces).unwrap();
    assert!(m.is_changed());
    assert_eq!(m.merged.len(), 1);
    assert_eq!(m.merged[0].0, "eth1");
    assert_eq!(m.merged[0].1.len(), 1);
    assert_eq!(m.changed_routes.len(), 2);
    let apply = m.gen_state_for_apply();
    assert_eq!(apply.config.unwrap().len(), 2);
}

#[test]
fn routes_to_ignored_interfaces_are_marked_ignored() {
    let mut ifaces = Interfaces::new();
    let mut ign = eth("eth2");
    ign.base_iface_mut().state = InterfaceState::Ignore;
    ifaces.push(ign);
    ifaces.push(eth("eth1"));
    let mut routes = Routes::default();
    routes.config = Some(vec![route("198.51.100.0/24", "eth1"), route("192.0.2.0/24", "eth2")]);
    routes.running = Some(vec![route("203.0.113.0/24", "eth2")]);
    routes.mark_route_as_ignored_ifaces(&ifaces);
    let config = routes.config.unwrap();
    assert_eq!(config[0].state, None);
    assert_eq!(config[1].state, Some(RouteState::Ignore));
    assert_eq!(routes.running.unwrap()[0].state, Some(RouteState::Ignore));
}

#[test]
fn up_priority_rounds_fail_without_controller_priority() {
    // A port whose controller is another port with no priority needs more
    // than one round; a chain of five bonds cannot be resolved in four.
    let mut desired = Interfaces::new();
    let names = ["bond5", "bond4", "bond3", "bond2", "bond1", "bond0"];
    for (i, name) in names.iter().enumerate() {
        let mut conf = BondConfig::default();
        conf.mode = Some(BondMode::RoundRobin);
        let mut b = Interface::Bond(Box::new(BondInterface::new((*name).into(), conf)));
        if i + 1 < names.len() {
            b.base_iface_mut().controller = Some(names[i + 1].into());
            b.base_iface_mut().controller_type = Some(InterfaceType::Bond);
        }
        desired.push(b);
    }
    match MergedInterfaces::new(desired, Interfaces::new()) {
        Err(e) => assert_eq!(e.kind(), nipart::ErrorKind::InvalidArgument),
        Ok(_) => panic!("a chain of six bonds cannot get up priorities in four rounds"),
    }
}

#[test]
fn up_priority_follows_controller_chain() {
    let mut desired = Interfaces::new();
    let mut conf = BondConfig::default();
    conf.mode = Some(BondMode::RoundRobin);
    desired.push(Interface::Bond(Box::new(BondInterface::new("bond0".into(), conf.clone()))));
    let mut b1 = Interface::Bond(Box::new(BondInterface::new("bond1".into(), conf)));
    b1.base_iface_mut().controller = Some("bond0".into());
    b1.base_iface_mut().controller_type = Some(InterfaceType::Bond);
    desired.push(b1);
    let mut port = eth("eth1");
    port.base_iface_mut().controller = Some("bond1".into());
    port.base_iface_mut().controller_type = Some(InterfaceType::Bond);
    desired.push(port);
    let mut current = Interfaces::new();
    current.push(eth("eth1"));
    let merged = MergedInterfaces::new(desired, current).unwrap();
    let prio = |n: &str, t: InterfaceType| {
        merged.get_iface(n, &t).unwrap().for_apply.as_ref().unwrap().base_iface().up_priority
    };
    assert_eq!(prio("bond0", InterfaceType::Bond), 0);
    assert_eq!(prio("bond1", InterfaceType::Bond), 1);
    assert_eq!(prio("eth1", InterfaceType::Ethernet), 2);
    assert_eq!(merged.insert_order.len(), 3);
    assert_eq!(merged.insert_order[2].0, "eth1");
}

#[test]
fn absent_route_with_empty_next_hop_addr_matches_routes_without_one() {
    let mut absent = RouteEntry::default();
    absent.state = Some(RouteState::Absent);
    absent.next_hop_iface = Some("eth1".into());
    absent.next_hop_addr = Some("".into());
    let plain = route("192.0.2.0/24", "eth1");
    assert!(absent.is_match(&plain));
    let mut via_gw = route("192.0.2.0/24", "eth1");
    via_gw.next_hop_addr = Some("192.0.2.1".into());
    assert!(!absent.is_match(&via_gw));
}

#[test]
fn unknown_type_does_not_override_previous_type() {
    let mut new = BaseInterface::new("eth1".into(), InterfaceType::default());
    let old = BaseInterface::new("eth1".into(), InterfaceType::Ethernet);
    assert!(new.post_merge(&old).is_ok());
    assert!(new.iface_type == InterfaceType::Ethernet);
    assert!(matches!(new.state, InterfaceState::Up));
}

#[test]
fn merged_routes_refuse_next_hop_with_disabled_stack() {
    let mut current_ifaces = Interfaces::new();
    let mut e1 = eth("eth1");
    e1.base_iface_mut().ipv4 = Some(InterfaceIpv4 { enabled: Some(false), dhcp: None, addresses: None });
    current_ifaces.push(e1);
    let merged_ifaces = MergedInterfaces::new(Interfaces::new(), current_ifaces).unwrap();
    let mut desired = Routes::default();
    desired.config = Some(vec![route("198.51.100.0/24", "eth1")]);
    let e = MergedRoutes::new(desired, Routes::default(), &merged_ifaces).unwrap_err();
    assert_eq!(e.kind(), nipart::ErrorKind::InvalidArgument);
}

#[test]
fn new_veth_gets_its_peer_created() {
    let mut desired_ifaces = Interfaces::new();
    desired_ifaces.push(Interface::Ethernet(Box::new(EthernetInterface::new_veth(
        BaseInterface::new("veth1".into(), InterfaceType::Ethernet),
        "veth1p",
    ))));
    let merged = MergedInterfaces::new(desired_ifaces, Interfaces::new()).unwrap();
    let peer = merged
        .kernel_ifaces
        .iter()
        .find(|m| m.merged.base_iface().name == "veth1p")
        .expect("peer entry");
    let des = peer.desired.as_ref().unwrap().base_iface();
    assert_eq!(des.up_priority, 1);
    assert!(matches!(des.state, InterfaceState::Up));
    assert!(matches!(peer.current.as_ref().unwrap().base_iface().state, InterfaceState::Down));
    assert!(peer.for_verify.is_none());
}

#[test]
fn absent_route_by_interface_removes_its_current_routes() {
    let merged_ifaces = MergedInterfaces::new(Interfaces::new(), Interfaces::new()).unwrap();
    let mut absent = RouteEntry::default();
    absent.state = Some(RouteState::Absent);
    absent.next_hop_iface = Some("eth1".into());
    let mut desired = Routes::default();
    desired.config = Some(vec![absent]);
    let mut current = Routes::default();
    current.config = Some(vec![route("192.0.2.0/24", "eth1")]);
    let m = MergedRoutes::new(desired, current, &merged_ifaces).unwrap();
    assert!(m.merged.is_empty());
    assert_eq!(m.route_changed_ifaces, vec!["eth1".to_string()]);
    assert_eq!(m.changed_routes.len(), 1);
    assert_eq!(m.changed_routes[0].destination.as_deref(), Some("192.0.2.0/24"));
    assert_eq!(m.changed_routes[0].next_hop_iface.as_deref(), Some("eth1"));
    assert!(m.changed_routes[0].is_absent());
}
