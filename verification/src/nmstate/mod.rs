pub(crate) mod iface;
pub(crate) mod iface_ip;
pub(crate) mod iface_state;
pub(crate) mod iface_type;
pub(crate) mod interfaces;
pub(crate) mod ifaces;
pub(crate) mod ip;
pub(crate) mod merged;
pub(crate) mod net_state;
pub(crate) mod route;
pub(crate) mod state_options;

pub use iface::{IfaceSection, Interface, InterfaceView};
pub use iface_ip::{InterfaceIpAddr, InterfaceIpv4, InterfaceIpv6};
pub use iface_state::InterfaceState;
pub use iface_type::InterfaceType;
pub use ifaces::{
    compress_vlan_ids, is_zero, sort_dedup_qos, validate_overlap_trunk_tags, BaseInterface, BaseInterfaceView,
    BondAdSelect, BondAllPortActive, BondArpAllTargets, BondArpValidate, BondConfig, BondFailOverMac, BondInterface,
    BondLacpRate, BondMode, BondOptions, BondOptionsView, BondPortConfig, BondPrimaryReselect, BondXmitHashPolicy,
    BridgeVlanConfig, BridgeVlanMode, BridgeVlanRange, BridgeVlanTrunkTag, DummyInterface, EthernetConfig,
    EthernetDuplex, EthernetInterface, LinuxBridgeConfig, LinuxBridgeInterface, LinuxBridgeMulticastRouterType,
    LinuxBridgeOptions, LinuxBridgePortConfig, LinuxBridgeStpOptions, LoopbackInterface, OvsBridgeConfig,
    OvsBridgeInterface, OvsBridgePortConfig, OvsInterface, UnknownInterface, VethConfig, VlanConfig, VlanConfigView,
    VlanInterface, VlanProtocol, VlanQosMapping, VlanRegistrationProtocol, WifiAuthType, WifiCfgInterface, WifiConfig,
    WifiConfigView, WifiPhyInterface, WifiState, HIDE_PASSWORD_STR, UNKNOWN_PASSWRD_STR,
};
pub use interfaces::Interfaces;
pub use ip::{
    apply_prefix, ip_to_string, ipv4_to_string, ipv6_to_string, is_ipv6_addr, parse_ip, parse_ipv4, parse_ipv6,
    sanitize_ip_network, str_chars, IpAddr, Ipv6Segments,
};
pub use merged::iface::MergedInterface;
pub use merged::ifaces::MergedInterfaces;
pub use merged::net_state::MergedNetworkState;
pub use merged::route::MergedRoutes;
pub use net_state::NetworkState;
pub use route::{sort_dedup_routes, RouteEntry, RouteState, RouteType, Routes};
pub use state_options::{NipartstateApplyOption, NipartstateQueryOption, NipartstateStateKind, CUR_SCHEMA_VERSION};
