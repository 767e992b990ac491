//! Network state data model, validation and merging for the nipart
//! network management daemon, with its IPC framing rules.

pub(crate) mod error;
pub(crate) mod ipc;
pub(crate) mod logging;
pub(crate) mod nmstate;
pub(crate) mod schema;
pub(crate) mod text;
pub(crate) mod uuid;

pub use error::{ErrorKind, NipartError};
pub use ipc::{
    classify_message, frame_message, parse_message_size, NipartCanIpc, NipartClientCmd, NipartMessageKind,
    DEFAULT_TIMEOUT_MS, IPC_MAX_SIZE,
};
pub use logging::{NipartLogEntry, NipartLogLevel};
pub use nmstate::{
    IfaceSection, Interface, InterfaceView, InterfaceIpAddr, InterfaceIpv4, InterfaceIpv6, compress_vlan_ids, is_zero, sort_dedup_qos, validate_overlap_trunk_tags, BaseInterface, BaseInterfaceView, BondAdSelect, BondAllPortActive, BondArpAllTargets, BondArpValidate, BondConfig, BondFailOverMac, BondInterface, BondLacpRate, BondMode, BondOptions, BondOptionsView, BondPortConfig, BondPrimaryReselect, BondXmitHashPolicy, BridgeVlanConfig, BridgeVlanMode, BridgeVlanRange, BridgeVlanTrunkTag, DummyInterface, EthernetConfig, EthernetDuplex, EthernetInterface, LinuxBridgeConfig, LinuxBridgeInterface, LinuxBridgeMulticastRouterType, LinuxBridgeOptions, LinuxBridgePortConfig, LinuxBridgeStpOptions, LoopbackInterface, OvsBridgeConfig, OvsBridgeInterface, OvsBridgePortConfig, OvsInterface, UnknownInterface, VethConfig, VlanConfig, VlanConfigView, VlanInterface, VlanProtocol, VlanQosMapping, VlanRegistrationProtocol, WifiAuthType, WifiCfgInterface, WifiConfig, WifiConfigView, WifiPhyInterface, WifiState, HIDE_PASSWORD_STR, UNKNOWN_PASSWRD_STR, apply_prefix, ip_to_string, ipv4_to_string, ipv6_to_string, is_ipv6_addr, parse_ip, parse_ipv4, parse_ipv6, sanitize_ip_network, str_chars, IpAddr, Ipv6Segments, sort_dedup_routes, RouteEntry, RouteState, RouteType, Routes, NipartstateApplyOption, NipartstateQueryOption, NipartstateStateKind, CUR_SCHEMA_VERSION, InterfaceState, InterfaceType, Interfaces, MergedInterface, MergedInterfaces, MergedNetworkState, MergedRoutes, NetworkState,
};
pub use schema::{
    NetworkCommitQueryOption, NipartConnection, NipartDhcpConfig, NipartDhcpConfigV4, NipartDhcpConfigV6,
    NipartEventAction, NipartEventAddress, NipartLinkMonitorRule, NipartLockEntry, NipartLockOption,
    NipartPluginCommonEvent, DEFAULT_DHCP_TIMEOUT,
};
pub use text::{decimal_string, str_to_string};
pub use uuid::NipartUuid;
