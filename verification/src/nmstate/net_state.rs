use vstd::prelude::*;
use vstd::string::*;

use crate::error::NipartError;
use crate::nmstate::iface::{iface_hidden, IfaceSection, Interface, InterfaceView};
use crate::nmstate::interfaces::{ifaces_view, Interfaces};
use crate::nmstate::ifaces::wifi::{WifiCfgInterface, WifiConfig, WifiPhyInterface};
use crate::nmstate::route::Routes;
use crate::nmstate::state_options::CUR_SCHEMA_VERSION;
use crate::text::clone_opt_str;

verus! {

/// A network state: interfaces and routes.
#[non_exhaustive]
pub struct NetworkState {
    /// Schema version; please set it to 1 explicitly.
    pub version: Option<u32>,
    /// Description for the whole desired state.
    pub description: Option<String>,
    pub routes: Routes,
    pub ifaces: Interfaces,
}

impl Default for NetworkState {
    fn default() -> (r: Self)
        ensures
            r.version == Some(CUR_SCHEMA_VERSION),
            r.description is None,
            r.routes@.running is None && r.routes@.config is None,
            r.ifaces.kernel_ifaces@.len() == 0 && r.ifaces.user_ifaces@.len() == 0 && r.ifaces.insert_order@.len()
                == 0,
    {
        NetworkState {
            version: Some(CUR_SCHEMA_VERSION),
            description: None,
            ifaces: Interfaces::default(),
            routes: Routes::default(),
        }
    }
}

/// Whether an interface model holds a WiFi password: the only secret an
/// interface holds.
pub open spec fn holds_secret(v: InterfaceView) -> bool {
    match v.section {
        IfaceSection::WifiPhy(Some(w)) => w.password is Some,
        IfaceSection::WifiCfg(Some(w)) => w.password is Some,
        _ => false,
    }
}

/// Whether every interface of a list holds a secret.
pub open spec fn all_hold_secrets(s: Seq<InterfaceView>) -> bool {
    forall|i: int| 0 <= i < s.len() ==> #[trigger] holds_secret(s[i])
}

/// The secret part of a WiFi configuration: its SSID and password.
pub open spec fn secret_wifi_view(w: crate::nmstate::ifaces::wifi::WifiConfigView) -> crate::nmstate::ifaces::wifi::WifiConfigView {
    crate::nmstate::ifaces::wifi::WifiConfigView {
        ssid: w.ssid,
        password: w.password,
        ..crate::nmstate::ifaces::wifi::empty_wifi()
    }
}

/// The secret part of an interface holding a secret: its name, type and
/// state, with the secret part of its WiFi configuration.
pub open spec fn secret_of(v: InterfaceView) -> InterfaceView {
    InterfaceView {
        base: crate::nmstate::ifaces::base::bare_base(v.base.name, v.base.iface_type, v.base.state),
        section: match v.section {
            IfaceSection::WifiPhy(Some(w)) => IfaceSection::WifiPhy(Some(secret_wifi_view(w))),
            IfaceSection::WifiCfg(Some(w)) => IfaceSection::WifiCfg(Some(secret_wifi_view(w))),
            _ => v.section,
        },
    }
}

/// The keys, in order, of the interfaces of a list that hold a secret.
pub open spec fn secret_keys(s: Seq<InterfaceView>) -> Seq<(String, crate::nmstate::iface_type::InterfaceType)>
    decreases s.len(),
{
    if s.len() == 0 {
        Seq::empty()
    } else {
        let p = secret_keys(s.drop_last());
        let v = s.last();
        if holds_secret(v) {
            p.push((v.base.name, v.base.iface_type))
        } else {
            p
        }
    }
}

/// Every interface of `v` is the secret part of one of `all`.
pub open spec fn from_secrets(v: Seq<InterfaceView>, all: Seq<InterfaceView>) -> bool {
    forall|k: int| 0 <= k < v.len() ==> exists|x: int| 0 <= x < all.len() && #[trigger] v[k] == secret_of(all[x])
}

proof fn lemma_from_secrets_step(ov: Seq<InterfaceView>, nv: Seq<InterfaceView>, sv: InterfaceView, all: Seq<InterfaceView>, x: int)
    requires
        from_secrets(ov, all),
        0 <= x < all.len(),
        sv == secret_of(all[x]),
        nv == ov || nv == ov.push(sv) || exists|i: int| 0 <= i < ov.len() && nv == ov.update(i, sv),
    ensures
        from_secrets(nv, all),
{
    if nv == ov {
    } else if nv == ov.push(sv) {
        assert forall|k: int| 0 <= k < nv.len() implies exists|y: int|
            0 <= y < all.len() && #[trigger] nv[k] == secret_of(all[y]) by {
            if k == ov.len() {
                assert(nv[k] == secret_of(all[x]));
            } else {
                assert(nv[k] == ov[k]);
            }
        }
    } else {
        let i = choose|i: int| 0 <= i < ov.len() && nv == ov.update(i, sv);
        assert forall|k: int| 0 <= k < nv.len() implies exists|y: int|
            0 <= y < all.len() && #[trigger] nv[k] == secret_of(all[y]) by {
            if k == i {
                assert(nv[k] == secret_of(all[x]));
            } else {
                assert(nv[k] == ov[k]);
            }
        }
    }
}

fn secret_wifi(w: &WifiConfig) -> (r: WifiConfig)
    ensures
        r@ == (crate::nmstate::ifaces::wifi::WifiConfigView {
            ssid: w.ssid@,
            password: crate::text::opt_str_view(w.password),
            ..crate::nmstate::ifaces::wifi::empty_wifi()
        }),
{
    let mut r = WifiConfig::default();
    r.ssid = w.ssid.clone();
    r.password = clone_opt_str(&w.password);
    r
}

/// The secret part of an interface: its name, type and state with the WiFi
/// SSID and password, when it holds a password.
fn secret_part(i: &Interface) -> (r: Option<Interface>)
    ensures
        r matches Some(x) ==> holds_secret(x@) && x@ == secret_of(i@),
        r is Some <==> holds_secret(i@),
{
    match i {
        Interface::WifiPhy(p) => match &p.wifi {
            Some(w) => {
                if w.password.is_some() {
                    let mut base = p.base.clone_name_type_only();
                    base.state = p.base.state;
                    Some(Interface::WifiPhy(Box::new(WifiPhyInterface { base, wifi: Some(secret_wifi(w)) })))
                } else {
                    None
                }
            },
            None => None,
        },
        Interface::WifiCfg(c) => match &c.wifi {
            Some(w) => {
                if w.password.is_some() {
                    let mut base = c.base.clone_name_type_only();
                    base.state = c.base.state;
                    Some(Interface::WifiCfg(Box::new(WifiCfgInterface { base, wifi: Some(secret_wifi(w)) })))
                } else {
                    None
                }
            },
            None => None,
        },
        _ => None,
    }
}

impl NetworkState {
    /// Text shown in place of a password that must not be displayed.
    pub const HIDE_PASSWORD_STR: &'static str = "<_password_hidden_by_nmstate>";

    /// Text shown in place of a password that cannot be retrieved.
    pub const UNKNOWN_PASSWRD_STR: &'static str = "<_password_unknown_to_nmstate>";

    /// An empty network state of the current schema version.
    pub fn new() -> (r: Self)
        ensures
            r.version == Some(CUR_SCHEMA_VERSION),
            r.description is None,
            r.routes@.running is None && r.routes@.config is None,
            r.ifaces.kernel_ifaces@.len() == 0 && r.ifaces.user_ifaces@.len() == 0,
    {
        Self::default()
    }

    /// Whether the state holds no interface and no configured route.
    pub fn is_empty(&self) -> (r: bool)
        ensures
            r == (self.ifaces.kernel_ifaces@.len() == 0 && self.ifaces.user_ifaces@.len() == 0 && (
            self.routes@.config is None || self.routes@.config->0.len() == 0)),
    {
        self.ifaces.is_empty() && self.routes.is_empty()
    }

    /// Hide the secrets of this state and return a state holding only them:
    /// for each interface with a WiFi password, its name, type and state with
    /// the SSID and the password.
    pub fn hide_secrets(&mut self) -> (r: Self)
        ensures
            ifaces_view(final(self).ifaces.kernel_ifaces@) == ifaces_view(old(self).ifaces.kernel_ifaces@).map_values(
                |v: InterfaceView| iface_hidden(v),
            ),
            ifaces_view(final(self).ifaces.user_ifaces@) == ifaces_view(old(self).ifaces.user_ifaces@).map_values(
                |v: InterfaceView| iface_hidden(v),
            ),
            final(self).version == old(self).version,
            final(self).description == old(self).description,
            final(self).routes@ == old(self).routes@,
            all_hold_secrets(ifaces_view(r.ifaces.kernel_ifaces@)),
            all_hold_secrets(ifaces_view(r.ifaces.user_ifaces@)),
            from_secrets(
                ifaces_view(r.ifaces.kernel_ifaces@),
                ifaces_view(old(self).ifaces.kernel_ifaces@) + ifaces_view(old(self).ifaces.user_ifaces@),
            ),
            from_secrets(
                ifaces_view(r.ifaces.user_ifaces@),
                ifaces_view(old(self).ifaces.kernel_ifaces@) + ifaces_view(old(self).ifaces.user_ifaces@),
            ),
            r.ifaces.insert_order@ == secret_keys(
                ifaces_view(old(self).ifaces.kernel_ifaces@) + ifaces_view(old(self).ifaces.user_ifaces@),
            ),
            forall|x: int|
                0 <= x < (ifaces_view(old(self).ifaces.kernel_ifaces@) + ifaces_view(
                    old(self).ifaces.user_ifaces@,
                )).len() && #[trigger] holds_secret(
                    (ifaces_view(old(self).ifaces.kernel_ifaces@) + ifaces_view(old(self).ifaces.user_ifaces@))[x],
                ) ==> crate::nmstate::interfaces::all_names(r.ifaces).contains(
                    (ifaces_view(old(self).ifaces.kernel_ifaces@) + ifaces_view(old(self).ifaces.user_ifaces@))[x].base.name@,
                ),
            r.version == Some(CUR_SCHEMA_VERSION),
            r.description is None,
            r.routes@.running is None && r.routes@.config is None,
    {
        let all = self.ifaces.to_vec();
        let ghost allv = ifaces_view(all@);
        let mut secrets = Interfaces::new();
        let mut i: usize = 0;
        while i < all.len()
            invariant
                i <= all.len(),
                allv == ifaces_view(all@),
                all_hold_secrets(ifaces_view(secrets.kernel_ifaces@)),
                all_hold_secrets(ifaces_view(secrets.user_ifaces@)),
                from_secrets(ifaces_view(secrets.kernel_ifaces@), allv),
                from_secrets(ifaces_view(secrets.user_ifaces@), allv),
                secrets.insert_order@ == secret_keys(allv.take(i as int)),
                forall|x: int|
                    0 <= x < i && #[trigger] holds_secret(allv[x]) ==> crate::nmstate::interfaces::all_names(
                        secrets,
                    ).contains(allv[x].base.name@),
            decreases all.len() - i,
        {
            proof {
                assert(allv.take(i + 1).drop_last() =~= allv.take(i as int));
                assert(allv.take(i + 1).last() == allv[i as int]);
                assert(allv[i as int] == all@[i as int]@);
            }
            if let Some(s) = secret_part(&all[i]) {
                let ghost ok = ifaces_view(secrets.kernel_ifaces@);
                let ghost ou = ifaces_view(secrets.user_ifaces@);
                let ghost oldn = crate::nmstate::interfaces::all_names(secrets);
                let ghost sv = s@;
                secrets.push(s);
                proof {
                    assert(allv[i as int] == all@[i as int]@);
                    assert forall|k: int| 0 <= k < secrets.kernel_ifaces@.len() implies #[trigger] holds_secret(
                        ifaces_view(secrets.kernel_ifaces@)[k],
                    ) by {
                        if k < ok.len() && ifaces_view(secrets.kernel_ifaces@)[k] != sv {
                            assert(ifaces_view(secrets.kernel_ifaces@)[k] == ok[k]);
                        }
                    }
                    assert forall|k: int| 0 <= k < secrets.user_ifaces@.len() implies #[trigger] holds_secret(
                        ifaces_view(secrets.user_ifaces@)[k],
                    ) by {
                        if k < ou.len() && ifaces_view(secrets.user_ifaces@)[k] != sv {
                            assert(ifaces_view(secrets.user_ifaces@)[k] == ou[k]);
                        }
                    }
                    lemma_from_secrets_step(ok, ifaces_view(secrets.kernel_ifaces@), sv, allv, i as int);
                    lemma_from_secrets_step(ou, ifaces_view(secrets.user_ifaces@), sv, allv, i as int);
                    assert forall|x: int|
                        0 <= x < i + 1 && #[trigger] holds_secret(allv[x]) implies crate::nmstate::interfaces::all_names(
                        secrets,
                    ).contains(allv[x].base.name@) by {
                        if x < i {
                            assert(oldn.contains(allv[x].base.name@));
                        }
                    }
                }
            }
            i += 1;
        }
        proof {
            assert(allv.take(all@.len() as int) =~= allv);
        }
        self.ifaces.hide_secrets();
        let mut r = NetworkState::new();
        r.ifaces = secrets;
        r
    }

    /// Merge a new state over this one: version and description of the new
    /// state when set, interfaces and routes merged.
    pub fn merge(&mut self, new_state: &Self) -> (r: Result<(), NipartError>)
        ensures
            r is Ok ==> final(self).version == (if new_state.version is Some {
                new_state.version
            } else {
                old(self).version
            }),
            r is Ok ==> crate::text::opt_str_view(final(self).description) == (if new_state.description is Some {
                crate::text::opt_str_view(new_state.description)
            } else {
                crate::text::opt_str_view(old(self).description)
            }),
            r is Ok ==> forall|n: Seq<char>|
                crate::nmstate::interfaces::all_names(new_state.ifaces).contains(n)
                    || crate::nmstate::interfaces::all_names(old(self).ifaces).contains(n)
                    ==> #[trigger] crate::nmstate::interfaces::all_names(final(self).ifaces).contains(n),
            r is Err <==> (new_state.routes@.config is Some && crate::nmstate::route::routes_first_error(
                new_state.routes@.config->0,
            ) is Some),
    {
        let ifaces = self.ifaces.merge(&new_state.ifaces)?;
        let routes = self.routes.merge(&new_state.routes)?;
        let version = if new_state.version.is_some() {
            new_state.version
        } else {
            self.version
        };
        let description = if new_state.description.is_some() {
            clone_opt_str(&new_state.description)
        } else {
            clone_opt_str(&self.description)
        };
        *self = NetworkState { version, description, ifaces, routes };
        Ok(())
    }
}

} // verus!
