use vstd::prelude::*;
use vstd::string::*;

use crate::error::{ErrorKind, NipartError};
use crate::nmstate::iface_state::InterfaceState;
use crate::nmstate::iface_type::InterfaceType;
use crate::nmstate::ifaces::base::{bare_base, BaseInterface, BaseInterfaceView};
use crate::text::{clone_opt_str, opt_str_eq, opt_str_view, str_eq, str_to_string, str_to_uppercase, unicode_uppercase};

verus! {

/// Text shown in place of a password that must not be displayed.
pub const HIDE_PASSWORD_STR: &'static str = "<_password_hidden_by_nmstate>";

/// Text shown in place of a password that cannot be retrieved.
pub const UNKNOWN_PASSWRD_STR: &'static str = "<_password_unknown_to_nmstate>";

/// Noise floor of the signal strength scale, in dBm.
pub const NOISE_FLOOR_DBM: i16 = -100;

/// Strongest signal of the signal strength scale, in dBm.
pub const SIGNAL_MAX_DBM: i16 = -50;

/// Connection state of a WiFi interface.
#[derive(Debug, Clone, Copy, PartialEq, Eq, Structural)]
#[non_exhaustive]
pub enum WifiState {
    /// BSS disconnected
    Disconnected,
    /// Scanning SSID
    Scanning,
    /// SSID found, trying to associate and authenticate with a BSS/SSID
    Connecting,
    /// Data connection is fully configured
    Completed,
    Unknown,
}

impl Default for WifiState {
    fn default() -> (r: Self)
        ensures
            r == WifiState::Unknown,
    {
        WifiState::Unknown
    }
}

/// WiFi authentication type.
#[derive(Debug, Clone, Copy, PartialEq, Eq, Structural, PartialOrd, Ord, Hash)]
#[non_exhaustive]
pub enum WifiAuthType {
    /// No authentication
    Open,
    /// WEP (deprecated)
    Wep,
    /// WPA 1 (deprecated)
    Wpa1,
    /// WPS (deprecated)
    Wps,
    /// WPA 2 pre-shared key
    Wpa2Personal,
    /// WPA 2/3 EAP, including OSEN
    Enterprise,
    /// WPA 3 pre-shared key using SAE
    Wpa3Personal,
    /// WPA 3 open network using OWE
    Wpa3Open,
    /// IEEE 802.11ai Fast Initial Link Setup
    Fils,
    /// Device Provisioning Protocol, also known as Easy Connect
    Dpp,
    Unknown,
}

impl Default for WifiAuthType {
    fn default() -> (r: Self)
        ensures
            r == WifiAuthType::Unknown,
    {
        WifiAuthType::Unknown
    }
}

/// WiFi configuration.
#[non_exhaustive]
pub struct WifiConfig {
    /// SSID (Service Set Identifier)
    pub ssid: String,
    /// WiFi state. For query only.
    pub state: Option<WifiState>,
    /// Authentication types. Ignored when applying.
    pub auth_types: Option<Vec<WifiAuthType>>,
    /// WiFi generation, e.g. 6 for WiFi-6. For query only.
    pub generation: Option<u32>,
    /// BSSID (Basic Service Set Identifier); if defined, only this access
    /// point is used.
    pub bssid: Option<String>,
    /// Password for authentication
    pub password: Option<String>,
    /// The only interface this configuration is for; any WiFi interface
    /// when undefined.
    pub base_iface: Option<String>,
    /// WiFi frequency in MHz. For query only.
    pub frequency_mhz: Option<u32>,
    /// Receive bitrate in 1mb/s. For query only.
    pub rx_bitrate_mb: Option<u32>,
    /// Transmit bitrate in 1mb/s. For query only.
    pub tx_bitrate_mb: Option<u32>,
    /// Signal in dBm. For query only.
    pub signal_dbm: Option<i16>,
    /// Signal in percentage. For query only.
    pub signal_percent: Option<u8>,
}

/// Model of a WiFi configuration: texts by their characters.
pub struct WifiConfigView {
    pub ssid: Seq<char>,
    pub state: Option<WifiState>,
    pub auth_types: Option<Seq<WifiAuthType>>,
    pub generation: Option<u32>,
    pub bssid: Option<Seq<char>>,
    pub password: Option<Seq<char>>,
    pub base_iface: Option<Seq<char>>,
    pub frequency_mhz: Option<u32>,
    pub rx_bitrate_mb: Option<u32>,
    pub tx_bitrate_mb: Option<u32>,
    pub signal_dbm: Option<i16>,
    pub signal_percent: Option<u8>,
}

impl View for WifiConfig {
    type V = WifiConfigView;

    open spec fn view(&self) -> WifiConfigView {
        WifiConfigView {
            ssid: self.ssid@,
            state: self.state,
            auth_types: crate::text::opt_vec_view(self.auth_types),
            generation: self.generation,
            bssid: opt_str_view(self.bssid),
            password: opt_str_view(self.password),
            base_iface: opt_str_view(self.base_iface),
            frequency_mhz: self.frequency_mhz,
            rx_bitrate_mb: self.rx_bitrate_mb,
            tx_bitrate_mb: self.tx_bitrate_mb,
            signal_dbm: self.signal_dbm,
            signal_percent: self.signal_percent,
        }
    }
}

/// Model of an optional WiFi configuration.
pub open spec fn opt_wifi_view(o: Option<WifiConfig>) -> Option<WifiConfigView> {
    match o {
        Some(w) => Some(w@),
        None => None,
    }
}

/// The empty configuration: empty SSID, nothing else set.
pub open spec fn empty_wifi() -> WifiConfigView {
    WifiConfigView {
        ssid: Seq::empty(),
        state: None,
        auth_types: None,
        generation: None,
        bssid: None,
        password: None,
        base_iface: None,
        frequency_mhz: None,
        rx_bitrate_mb: None,
        tx_bitrate_mb: None,
        signal_dbm: None,
        signal_percent: None,
    }
}

/// The signal strength clamped to the scale from the noise floor to the
/// strongest signal.
pub open spec fn clamp_dbm(dbm: int) -> int {
    if dbm < NOISE_FLOOR_DBM {
        NOISE_FLOOR_DBM as int
    } else if dbm > SIGNAL_MAX_DBM {
        SIGNAL_MAX_DBM as int
    } else {
        dbm
    }
}

/// Signal strength in percent: the clamped dBm value placed linearly between
/// the noise floor (0%) and the strongest signal (100%).
pub open spec fn signal_percent_of(dbm: int) -> int {
    100 * (clamp_dbm(dbm) - NOISE_FLOOR_DBM) / (SIGNAL_MAX_DBM - NOISE_FLOOR_DBM)
}

/// The configuration with its password replaced by the hiding placeholder.
pub open spec fn wifi_hidden(w: WifiConfigView) -> WifiConfigView {
    WifiConfigView {
        password: match w.password {
            Some(_) => Some(HIDE_PASSWORD_STR@),
            None => None,
        },
        ..w
    }
}

/// The configuration after sanitize: query-only properties cleared and the
/// BSSID in upper case.
pub open spec fn wifi_sanitized(w: WifiConfigView) -> WifiConfigView {
    WifiConfigView {
        state: None,
        generation: None,
        frequency_mhz: None,
        tx_bitrate_mb: None,
        rx_bitrate_mb: None,
        signal_dbm: None,
        signal_percent: None,
        bssid: match w.bssid {
            Some(b) => Some(unicode_uppercase(b)),
            None => None,
        },
        ..w
    }
}

/// The first of two optional values that is set.
pub open spec fn first_set<T>(a: Option<T>, b: Option<T>) -> Option<T> {
    match a {
        Some(_) => a,
        None => b,
    }
}

/// A new configuration merged over an old one: each property not set in the
/// new one is taken from the old one, and an empty SSID is taken from the old
/// one too.
pub open spec fn wifi_merged(new: WifiConfigView, prev: WifiConfigView) -> WifiConfigView {
    WifiConfigView {
        ssid: if new.ssid.len() == 0 {
            prev.ssid
        } else {
            new.ssid
        },
        state: first_set(new.state, prev.state),
        auth_types: first_set(new.auth_types, prev.auth_types),
        generation: first_set(new.generation, prev.generation),
        bssid: first_set(new.bssid, prev.bssid),
        password: first_set(new.password, prev.password),
        base_iface: first_set(new.base_iface, prev.base_iface),
        frequency_mhz: first_set(new.frequency_mhz, prev.frequency_mhz),
        rx_bitrate_mb: first_set(new.rx_bitrate_mb, prev.rx_bitrate_mb),
        tx_bitrate_mb: first_set(new.tx_bitrate_mb, prev.tx_bitrate_mb),
        signal_dbm: first_set(new.signal_dbm, prev.signal_dbm),
        signal_percent: first_set(new.signal_percent, prev.signal_percent),
    }
}

/// The text that the standard debug formatting gives for the secrets-hidden
/// form of a WiFi configuration.
pub uninterp spec fn wifi_debug_text(v: WifiConfigView) -> Seq<char>;

fn clone_auth_types(v: &Option<Vec<WifiAuthType>>) -> (r: Option<Vec<WifiAuthType>>)
    ensures
        crate::text::opt_vec_view(r) == crate::text::opt_vec_view(*v),
{
    match v {
        None => None,
        Some(t) => {
            let mut out: Vec<WifiAuthType> = Vec::new();
            let mut i: usize = 0;
            while i < t.len()
                invariant
                    i <= t.len(),
                    out@ == t@.subrange(0, i as int),
                decreases t.len() - i,
            {
                out.push(t[i]);
                i += 1;
            }
            proof {
                assert(out@ =~= t@);
            }
            Some(out)
        },
    }
}

fn auth_types_eq(a: &Option<Vec<WifiAuthType>>, b: &Option<Vec<WifiAuthType>>) -> (r: bool)
    ensures
        r == (crate::text::opt_vec_view(*a) == crate::text::opt_vec_view(*b)),
{
    match (a, b) {
        (None, None) => true,
        (Some(x), Some(y)) => {
            if x.len() != y.len() {
                return false;
            }
            let mut i: usize = 0;
            while i < x.len()
                invariant
                    i <= x.len(),
                    x.len() == y.len(),
                    *a == Some(*x),
                    *b == Some(*y),
                    forall|k: int| 0 <= k < i ==> x@[k] == y@[k],
                decreases x.len() - i,
            {
                if x[i] != y[i] {
                    assert(x@[i as int] != y@[i as int]);
                    return false;
                }
                i += 1;
            }
            proof {
                assert(x@ =~= y@);
            }
            true
        },
        _ => false,
    }
}

impl Clone for WifiConfig {
    fn clone(&self) -> (r: Self)
        ensures
            r@ == self@,
    {
        WifiConfig {
            ssid: self.ssid.clone(),
            state: self.state,
            auth_types: clone_auth_types(&self.auth_types),
            generation: self.generation,
            bssid: clone_opt_str(&self.bssid),
            password: clone_opt_str(&self.password),
            base_iface: clone_opt_str(&self.base_iface),
            frequency_mhz: self.frequency_mhz,
            rx_bitrate_mb: self.rx_bitrate_mb,
            tx_bitrate_mb: self.tx_bitrate_mb,
            signal_dbm: self.signal_dbm,
            signal_percent: self.signal_percent,
        }
    }
}

impl Default for WifiConfig {
    fn default() -> (r: Self)
        ensures
            r@ == empty_wifi(),
    {
        WifiConfig {
            ssid: String::new(),
            state: None,
            auth_types: None,
            generation: None,
            bssid: None,
            password: None,
            base_iface: None,
            frequency_mhz: None,
            rx_bitrate_mb: None,
            tx_bitrate_mb: None,
            signal_dbm: None,
            signal_percent: None,
        }
    }
}

fn first_set_str(a: &Option<String>, b: &Option<String>) -> (r: Option<String>)
    ensures
        opt_str_view(r) == first_set(opt_str_view(*a), opt_str_view(*b)),
{
    match a {
        Some(_) => clone_opt_str(a),
        None => clone_opt_str(b),
    }
}

/// Secrets-hidden copy of a WiFi configuration, the form that is shown by
/// debug formatting.
#[derive(Debug)]
pub struct WifiConfigHideSecrets {
    pub state: Option<WifiState>,
    pub generation: Option<u32>,
    pub ssid: String,
    pub bssid: Option<String>,
    pub password: Option<String>,
    pub auth_types: Option<Vec<WifiAuthType>>,
    pub base_iface: Option<String>,
    pub frequency_mhz: Option<u32>,
    pub rx_bitrate_mb: Option<u32>,
    pub tx_bitrate_mb: Option<u32>,
    pub signal_dbm: Option<i16>,
    pub signal_percent: Option<u8>,
}

impl View for WifiConfigHideSecrets {
    type V = WifiConfigView;

    open spec fn view(&self) -> WifiConfigView {
        WifiConfigView {
            ssid: self.ssid@,
            state: self.state,
            auth_types: crate::text::opt_vec_view(self.auth_types),
            generation: self.generation,
            bssid: opt_str_view(self.bssid),
            password: opt_str_view(self.password),
            base_iface: opt_str_view(self.base_iface),
            frequency_mhz: self.frequency_mhz,
            rx_bitrate_mb: self.rx_bitrate_mb,
            tx_bitrate_mb: self.tx_bitrate_mb,
            signal_dbm: self.signal_dbm,
            signal_percent: self.signal_percent,
        }
    }
}

impl WifiConfigHideSecrets {
    /// A copy of the configuration with the password replaced by the hiding
    /// placeholder.
    fn from_config(v: &WifiConfig) -> (r: Self)
        ensures
            r@ == wifi_hidden(v@),
    {
        let c = v.clone();
        let password = if c.password.is_some() {
            Some(str_to_string(HIDE_PASSWORD_STR))
        } else {
            None
        };
        WifiConfigHideSecrets {
            password,
            ssid: c.ssid,
            bssid: c.bssid,
            base_iface: c.base_iface,
            auth_types: c.auth_types,
            state: c.state,
            generation: c.generation,
            frequency_mhz: c.frequency_mhz,
            rx_bitrate_mb: c.rx_bitrate_mb,
            tx_bitrate_mb: c.tx_bitrate_mb,
            signal_dbm: c.signal_dbm,
            signal_percent: c.signal_percent,
        }
    }
}

/// Debug formatting (`format!("{:?}")`) of the secrets-hidden copy; the
/// contract names the text as a function of the copy's model and says
/// nothing more of its shape.
#[verifier::external_body]
fn hidden_debug_text(v: &WifiConfigHideSecrets) -> (r: String)
    ensures
        r@ == wifi_debug_text(v@),
{
    format!("{:?}", v)
}

impl WifiConfig {
    /// Signal strength in percent for a signal in dBm: the value is clamped
    /// to the range from -100 dBm (0%) to -50 dBm (100%) and placed linearly
    /// in between.
    pub fn signal_dbm_to_percent(dbm: i16) -> (r: u8)
        ensures
            r as int == signal_percent_of(dbm as int),
    {
        let d: i16 = if dbm < NOISE_FLOOR_DBM {
            NOISE_FLOOR_DBM
        } else if dbm > SIGNAL_MAX_DBM {
            SIGNAL_MAX_DBM
        } else {
            dbm
        };
        let diff: u8 = (d - NOISE_FLOOR_DBM) as u8;
        assert(100 * (diff as int) / 50 == 2 * (diff as int)) by (nonlinear_arith)
            requires
                0 <= diff <= 50,
        ;
        diff * 2
    }

    /// Use `signal_dbm` to compute `signal_percent`.
    pub fn sanitize_signal(&mut self)
        ensures
            final(self)@ == (WifiConfigView {
                signal_percent: match old(self).signal_dbm {
                    Some(s) => Some(signal_percent_of(s as int) as u8),
                    None => old(self)@.signal_percent,
                },
                ..old(self)@
            }),
    {
        if let Some(s) = self.signal_dbm {
            self.signal_percent = Some(Self::signal_dbm_to_percent(s));
        }
    }

    /// Clear all query-only properties and change the BSSID to upper case.
    pub fn sanitize(&mut self)
        ensures
            final(self)@ == wifi_sanitized(old(self)@),
    {
        self.state = None;
        self.generation = None;
        self.frequency_mhz = None;
        self.tx_bitrate_mb = None;
        self.rx_bitrate_mb = None;
        self.signal_dbm = None;
        self.signal_percent = None;
        if let Some(mac) = self.bssid.as_ref() {
            self.bssid = Some(str_to_uppercase(mac.as_str()));
        }
    }

    /// Replace the password, if any, by the hiding placeholder.
    pub fn hide_secrets(&mut self)
        ensures
            final(self)@ == wifi_hidden(old(self)@),
    {
        if self.password.is_some() {
            self.password = Some(str_to_string(HIDE_PASSWORD_STR));
        }
    }

    /// Drop the password.
    pub fn remove_secrets(&mut self)
        ensures
            final(self)@ == (WifiConfigView { password: None, ..old(self)@ }),
    {
        self.password = None;
    }

    /// After merging, an empty SSID is taken from the old configuration.
    pub fn post_merge(&mut self, prev: &Self)
        ensures
            final(self)@ == (WifiConfigView {
                ssid: if old(self).ssid@.len() == 0 {
                    prev.ssid@
                } else {
                    old(self).ssid@
                },
                ..old(self)@
            }),
    {
        if self.ssid.unicode_len() == 0 {
            self.ssid = prev.ssid.clone();
        }
    }

    /// The new configuration merged over this one: properties not set in the
    /// new one come from this one, and so does an empty SSID.
    pub fn merge(&self, new: &Self) -> (r: Self)
        ensures
            r@ == wifi_merged(new@, self@),
    {
        let mut merged = WifiConfig {
            ssid: new.ssid.clone(),
            state: if new.state.is_some() {
                new.state
            } else {
                self.state
            },
            auth_types: if new.auth_types.is_some() {
                clone_auth_types(&new.auth_types)
            } else {
                clone_auth_types(&self.auth_types)
            },
            generation: if new.generation.is_some() {
                new.generation
            } else {
                self.generation
            },
            bssid: first_set_str(&new.bssid, &self.bssid),
            password: first_set_str(&new.password, &self.password),
            base_iface: first_set_str(&new.base_iface, &self.base_iface),
            frequency_mhz: if new.frequency_mhz.is_some() {
                new.frequency_mhz
            } else {
                self.frequency_mhz
            },
            rx_bitrate_mb: if new.rx_bitrate_mb.is_some() {
                new.rx_bitrate_mb
            } else {
                self.rx_bitrate_mb
            },
            tx_bitrate_mb: if new.tx_bitrate_mb.is_some() {
                new.tx_bitrate_mb
            } else {
                self.tx_bitrate_mb
            },
            signal_dbm: if new.signal_dbm.is_some() {
                new.signal_dbm
            } else {
                self.signal_dbm
            },
            signal_percent: if new.signal_percent.is_some() {
                new.signal_percent
            } else {
                self.signal_percent
            },
        };
        merged.post_merge(self);
        merged
    }

    /// Whether two configurations are equal in every property.
    pub fn same_as(&self, other: &Self) -> (r: bool)
        ensures
            r == (self@ == other@),
    {
        str_eq(self.ssid.as_str(), other.ssid.as_str()) && self.state == other.state && auth_types_eq(
            &self.auth_types,
            &other.auth_types,
        ) && self.generation == other.generation && opt_str_eq(&self.bssid, &other.bssid) && opt_str_eq(
            &self.password,
            &other.password,
        ) && opt_str_eq(&self.base_iface, &other.base_iface) && self.frequency_mhz == other.frequency_mhz
            && self.rx_bitrate_mb == other.rx_bitrate_mb && self.tx_bitrate_mb == other.tx_bitrate_mb
            && self.signal_dbm == other.signal_dbm && self.signal_percent == other.signal_percent
    }

    /// Debug text of the configuration, with the password hidden.
    pub fn to_debug_string(&self) -> (r: String)
        ensures
            r@ == wifi_debug_text(wifi_hidden(self@)),
    {
        hidden_debug_text(&WifiConfigHideSecrets::from_config(self))
    }

    /// Display text of the configuration: the debug text, with the password
    /// hidden.
    pub fn to_display_string(&self) -> (r: String)
        ensures
            r@ == wifi_debug_text(wifi_hidden(self@)),
    {
        self.to_debug_string()
    }
}

/// Hiding secrets twice hides nothing more than hiding them once.
pub proof fn lemma_wifi_hide_idempotent(w: WifiConfigView)
    ensures
        wifi_hidden(wifi_hidden(w)) == wifi_hidden(w),
{
}

/// The text shown of a configuration does not change when its secrets are
/// hidden first: what is shown never depends on the password's value.
pub proof fn lemma_wifi_text_ignores_password(w: WifiConfigView, other_password: Seq<char>)
    requires
        w.password is Some,
    ensures
        wifi_debug_text(wifi_hidden(w)) == wifi_debug_text(wifi_hidden(wifi_hidden(w))),
        wifi_debug_text(wifi_hidden(w)) == wifi_debug_text(
            wifi_hidden(WifiConfigView { password: Some(other_password), ..w }),
        ),
{
    assert(wifi_hidden(w) == wifi_hidden(WifiConfigView { password: Some(other_password), ..w }));
}

/// WiFi physical interface
#[non_exhaustive]
pub struct WifiPhyInterface {
    pub base: BaseInterface,
    pub wifi: Option<WifiConfig>,
}

/// Pseudo interface for WiFi configuration
#[non_exhaustive]
pub struct WifiCfgInterface {
    pub base: BaseInterface,
    pub wifi: Option<WifiConfig>,
}

fn clone_opt_wifi(w: &Option<WifiConfig>) -> (r: Option<WifiConfig>)
    ensures
        opt_wifi_view(r) == opt_wifi_view(*w),
{
    match w {
        None => None,
        Some(c) => Some(c.clone()),
    }
}

impl Clone for WifiPhyInterface {
    fn clone(&self) -> (r: Self)
        ensures
            r.base@ == self.base@,
            opt_wifi_view(r.wifi) == opt_wifi_view(self.wifi),
    {
        WifiPhyInterface { base: self.base.clone(), wifi: clone_opt_wifi(&self.wifi) }
    }
}

impl Clone for WifiCfgInterface {
    fn clone(&self) -> (r: Self)
        ensures
            r.base@ == self.base@,
            opt_wifi_view(r.wifi) == opt_wifi_view(self.wifi),
    {
        WifiCfgInterface { base: self.base.clone(), wifi: clone_opt_wifi(&self.wifi) }
    }
}

impl Default for WifiPhyInterface {
    fn default() -> (r: Self)
        ensures
            r.base@ == bare_base(r.base.name, InterfaceType::WifiPhy, InterfaceState::Up),
            r.base.name@ == Seq::<char>::empty(),
            r.wifi is None,
    {
        WifiPhyInterface { base: BaseInterface::new(String::new(), InterfaceType::WifiPhy), wifi: None }
    }
}

impl Default for WifiCfgInterface {
    fn default() -> (r: Self)
        ensures
            r.base@ == bare_base(r.base.name, InterfaceType::WifiCfg, InterfaceState::Up),
            r.base.name@ == Seq::<char>::empty(),
            r.wifi is None,
    {
        WifiCfgInterface { base: BaseInterface::new(String::new(), InterfaceType::WifiCfg), wifi: None }
    }
}

/// The configuration kept as diff context: when the desired and current
/// configurations differ and the desired SSID is set, only that SSID.
pub open spec fn wifi_diff_context(
    own: Option<WifiConfigView>,
    desired: Option<WifiConfigView>,
    current: Option<WifiConfigView>,
) -> Option<WifiConfigView> {
    if desired is Some && current is Some && desired->0.ssid.len() > 0 && desired != current {
        Some(WifiConfigView { ssid: desired->0.ssid, ..empty_wifi() })
    } else {
        own
    }
}

fn diff_context_wifi(own: &mut Option<WifiConfig>, desired: &Option<WifiConfig>, current: &Option<WifiConfig>)
    ensures
        opt_wifi_view(*final(own)) == wifi_diff_context(
            opt_wifi_view(*old(own)),
            opt_wifi_view(*desired),
            opt_wifi_view(*current),
        ),
{
    if let (Some(d), Some(c)) = (desired, current) {
        if d.ssid.unicode_len() > 0 && !d.same_as(c) {
            let mut w = WifiConfig::default();
            w.ssid = d.ssid.clone();
            *own = Some(w);
        }
    }
}

/// The configuration after merging the WiFi section of a new interface over
/// that of an old one.
pub open spec fn wifi_after_post_merge(new: Option<WifiConfigView>, prev: Option<WifiConfigView>) -> Option<
    WifiConfigView,
> {
    match (new, prev) {
        (Some(n), Some(o)) => Some(
            WifiConfigView {
                ssid: if n.ssid.len() == 0 {
                    o.ssid
                } else {
                    n.ssid
                },
                ..n
            },
        ),
        _ => new,
    }
}

fn post_merge_wifi(own: &mut Option<WifiConfig>, prev: &Option<WifiConfig>)
    ensures
        opt_wifi_view(*final(own)) == wifi_after_post_merge(opt_wifi_view(*old(own)), opt_wifi_view(*prev)),
{
    if let Some(o) = prev {
        if let Some(mut w) = own.take() {
            w.post_merge(o);
            *own = Some(w);
        }
    }
}

/// Whether a WiFi physical interface holds a configuration bound to another
/// interface.
pub open spec fn wifi_phy_bound_elsewhere(name: Seq<char>, w: Option<WifiConfigView>) -> bool {
    w matches Some(c) && c.base_iface matches Some(b) && b != name
}

impl WifiPhyInterface {
    /// A WiFi physical interface with the given name and configuration.
    pub fn new(name: String, wifi: WifiConfig) -> (r: Self)
        ensures
            r.base@ == bare_base(name, InterfaceType::WifiPhy, InterfaceState::Up),
            opt_wifi_view(r.wifi) == Some(wifi@),
    {
        WifiPhyInterface { base: BaseInterface::new(name, InterfaceType::WifiPhy), wifi: Some(wifi) }
    }

    /// Sanitize the WiFi configuration and bind it to this interface; a
    /// configuration bound to another interface is refused.
    pub fn sanitize_iface_specfic(&mut self, current: Option<&Self>) -> (r: Result<(), NipartError>)
        ensures
            final(self).base@ == old(self).base@,
            r is Err <==> wifi_phy_bound_elsewhere(old(self).base.name@, opt_wifi_view(old(self).wifi)),
            r matches Err(e) ==> e.kind == ErrorKind::InvalidArgument,
            r matches Err(e) ==> e.msg@ == "The wifi-phy interface "@ + old(self).base.name@
                + " is holding WIFI configuration with base-iface pointing to other interface "@
                + wifi_sanitized(old(self).wifi->0@).base_iface->0,
            r is Ok ==> opt_wifi_view(final(self).wifi) == match old(self).wifi {
                Some(w) => Some(WifiConfigView { base_iface: Some(old(self).base.name@), ..wifi_sanitized(w@) }),
                None => None,
            },
    {
        let iface_name = self.base.name.clone();
        if let Some(mut wifi_cfg) = self.wifi.take() {
            wifi_cfg.sanitize();
            if let Some(base_iface_name) = wifi_cfg.base_iface.as_ref() {
                if !str_eq(base_iface_name.as_str(), iface_name.as_str()) {
                    proof {
                        reveal_strlit("The wifi-phy interface ");
                        reveal_strlit(" is holding WIFI configuration with base-iface pointing to other interface ");
                    }
                    let mut msg = str_to_string("The wifi-phy interface ");
                    msg.append(iface_name.as_str());
                    msg.append(" is holding WIFI configuration with base-iface pointing to other interface ");
                    msg.append(base_iface_name.as_str());
                    self.wifi = Some(wifi_cfg);
                    return Err(NipartError::new(ErrorKind::InvalidArgument, msg));
                }
            }
            wifi_cfg.base_iface = Some(iface_name);
            self.wifi = Some(wifi_cfg);
        }
        Ok(())
    }

    /// Hide the WiFi password.
    pub fn hide_secrets_iface_specific(&mut self)
        ensures
            final(self).base@ == old(self).base@,
            opt_wifi_view(final(self).wifi) == match opt_wifi_view(old(self).wifi) {
                Some(w) => Some(wifi_hidden(w)),
                None => None,
            },
    {
        if let Some(mut w) = self.wifi.take() {
            w.hide_secrets();
            self.wifi = Some(w);
        }
    }

    /// Hide the secrets of the interface.
    pub fn hide_secrets(&mut self)
        ensures
            final(self).base@ == old(self).base@,
            opt_wifi_view(final(self).wifi) == match opt_wifi_view(old(self).wifi) {
                Some(w) => Some(wifi_hidden(w)),
                None => None,
            },
    {
        self.base.hide_secrets();
        self.hide_secrets_iface_specific();
    }

    /// Keep the SSID as diff context when the WiFi configuration changed.
    pub fn include_diff_context_iface_specific(&mut self, desired: &Self, current: &Self)
        ensures
            final(self).base@ == old(self).base@,
            opt_wifi_view(final(self).wifi) == wifi_diff_context(
                opt_wifi_view(old(self).wifi),
                opt_wifi_view(desired.wifi),
                opt_wifi_view(current.wifi),
            ),
    {
        diff_context_wifi(&mut self.wifi, &desired.wifi, &current.wifi);
    }

    /// After merging, an empty SSID is taken from the old configuration.
    pub fn post_merge_iface_specific(&mut self, prev: &Self) -> (r: Result<(), NipartError>)
        ensures
            r is Ok,
            final(self).base@ == old(self).base@,
            opt_wifi_view(final(self).wifi) == wifi_after_post_merge(
                opt_wifi_view(old(self).wifi),
                opt_wifi_view(prev.wifi),
            ),
    {
        post_merge_wifi(&mut self.wifi, &prev.wifi);
        Ok(())
    }
}

impl WifiCfgInterface {
    /// A WiFi configuration interface with the given base and no WiFi
    /// configuration.
    pub fn new(base: BaseInterface) -> (r: Self)
        ensures
            r.base@ == base@,
            r.wifi is None,
    {
        WifiCfgInterface { base, wifi: None }
    }

    /// A WiFi configuration interface named by the SSID of the configuration.
    pub fn from_config(config: WifiConfig) -> (r: Self)
        ensures
            r.base@ == bare_base(r.base.name, InterfaceType::WifiCfg, InterfaceState::Up),
            r.base.name@ == config.ssid@,
            opt_wifi_view(r.wifi) == Some(config@),
    {
        let name = config.ssid.clone();
        WifiCfgInterface { base: BaseInterface::new(name, InterfaceType::WifiCfg), wifi: Some(config) }
    }

    /// The interface the configuration is bound to, if any.
    pub fn parent(&self) -> (r: Option<&str>)
        ensures
            match self.wifi {
                Some(w) => match w.base_iface {
                    Some(b) => r is Some && r->0@ == b@,
                    None => r is None,
                },
                None => r is None,
            },
    {
        match &self.wifi {
            Some(w) => match &w.base_iface {
                Some(b) => Some(b.as_str()),
                None => None,
            },
            None => None,
        }
    }

    /// Sanitize the WiFi configuration.
    pub fn sanitize_iface_specfic(&mut self, current: Option<&Self>) -> (r: Result<(), NipartError>)
        ensures
            r is Ok,
            final(self).base@ == old(self).base@,
            opt_wifi_view(final(self).wifi) == match opt_wifi_view(old(self).wifi) {
                Some(w) => Some(wifi_sanitized(w)),
                None => None,
            },
    {
        if let Some(mut w) = self.wifi.take() {
            w.sanitize();
            self.wifi = Some(w);
        }
        Ok(())
    }

    /// Hide the WiFi password.
    pub fn hide_secrets_iface_specific(&mut self)
        ensures
            final(self).base@ == old(self).base@,
            opt_wifi_view(final(self).wifi) == match opt_wifi_view(old(self).wifi) {
                Some(w) => Some(wifi_hidden(w)),
                None => None,
            },
    {
        if let Some(mut w) = self.wifi.take() {
            w.hide_secrets();
            self.wifi = Some(w);
        }
    }

    /// Hide the secrets of the interface.
    pub fn hide_secrets(&mut self)
        ensures
            final(self).base@ == old(self).base@,
            opt_wifi_view(final(self).wifi) == match opt_wifi_view(old(self).wifi) {
                Some(w) => Some(wifi_hidden(w)),
                None => None,
            },
    {
        self.base.hide_secrets();
        self.hide_secrets_iface_specific();
    }

    /// Before verification: the IP stacks and the password are kept by the
    /// daemon only and cannot be queried, so they are dropped from the desired
    /// side, and the current side has its password hidden.
    pub fn sanitize_before_verify_iface_specfic(&mut self, current: &mut Self)
        ensures
            final(self).base@ == (BaseInterfaceView { ipv4: None, ipv6: None, ..old(self).base@ }),
            opt_wifi_view(final(self).wifi) == match opt_wifi_view(old(self).wifi) {
                Some(w) => Some(WifiConfigView { password: None, ..w }),
                None => None,
            },
            final(current).base@ == old(current).base@,
            opt_wifi_view(final(current).wifi) == match opt_wifi_view(old(current).wifi) {
                Some(w) => Some(wifi_hidden(w)),
                None => None,
            },
    {
        self.base.ipv4 = None;
        self.base.ipv6 = None;
        if let Some(mut w) = self.wifi.take() {
            w.remove_secrets();
            self.wifi = Some(w);
        }
        current.hide_secrets_iface_specific();
    }

    /// Keep the SSID as diff context when the WiFi configuration changed.
    pub fn include_diff_context_iface_specific(&mut self, desired: &Self, current: &Self)
        ensures
            final(self).base@ == old(self).base@,
            opt_wifi_view(final(self).wifi) == wifi_diff_context(
                opt_wifi_view(old(self).wifi),
                opt_wifi_view(desired.wifi),
                opt_wifi_view(current.wifi),
            ),
    {
        diff_context_wifi(&mut self.wifi, &desired.wifi, &current.wifi);
    }

    /// After merging, an empty SSID is taken from the old configuration.
    pub fn post_merge_iface_specific(&mut self, prev: &Self) -> (r: Result<(), NipartError>)
        ensures
            r is Ok,
            final(self).base@ == old(self).base@,
            opt_wifi_view(final(self).wifi) == wifi_after_post_merge(
                opt_wifi_view(old(self).wifi),
                opt_wifi_view(prev.wifi),
            ),
    {
        post_merge_wifi(&mut self.wifi, &prev.wifi);
        Ok(())
    }
}

} // verus!
