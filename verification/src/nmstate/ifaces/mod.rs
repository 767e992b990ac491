pub(crate) mod base;
pub(crate) mod bond;
pub(crate) mod bridge_vlan;
pub(crate) mod linux_bridge;
pub(crate) mod simple;
pub(crate) mod vlan;
pub(crate) mod wifi;

pub use base::{is_zero, BaseInterface, BaseInterfaceView};
pub use bridge_vlan::{
    compress_vlan_ids, validate_overlap_trunk_tags, BridgeVlanConfig, BridgeVlanMode, BridgeVlanRange, BridgeVlanTrunkTag,
};
pub use simple::{
    DummyInterface, EthernetConfig, EthernetDuplex, EthernetInterface, LoopbackInterface, OvsBridgeConfig,
    OvsBridgeInterface, OvsBridgePortConfig, OvsInterface, UnknownInterface, VethConfig,
};
pub use vlan::{
    sort_dedup_qos, VlanConfig, VlanConfigView, VlanInterface, VlanProtocol, VlanQosMapping, VlanRegistrationProtocol,
};
pub use linux_bridge::{
    LinuxBridgeConfig, LinuxBridgeInterface, LinuxBridgeMulticastRouterType, LinuxBridgeOptions,
    LinuxBridgePortConfig, LinuxBridgeStpOptions,
};
pub use wifi::{
    WifiAuthType, WifiCfgInterface, WifiConfig, WifiConfigView, WifiPhyInterface, WifiState, HIDE_PASSWORD_STR,
    UNKNOWN_PASSWRD_STR,
};
pub use bond::{
    BondConfig, BondInterface, BondAdSelect, BondAllPortActive, BondArpAllTargets, BondArpValidate, BondFailOverMac, BondLacpRate, BondMode,
    BondOptions, BondOptionsView, BondPortConfig, BondPrimaryReselect, BondXmitHashPolicy,
};
