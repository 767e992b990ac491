pub(crate) mod ethernet;
pub(crate) mod iface;
pub(crate) mod ifaces;
pub(crate) mod net_state;
pub(crate) mod route;
