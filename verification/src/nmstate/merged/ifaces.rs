use vstd::prelude::*;
use vstd::string::*;

use crate::error::{ErrorKind, NipartError};
use crate::nmstate::iface::{iface_hidden, iface_parent, IfaceSection, Interface, InterfaceView};
use crate::nmstate::iface_state::InterfaceState;
use crate::nmstate::iface_type::{same_type, type_is_userspace, type_key, InterfaceType};
use crate::nmstate::ifaces::base::{base_has_controller, BaseInterface, BaseInterfaceView};
use crate::nmstate::ifaces::simple::EthernetInterface;
use crate::nmstate::interfaces::{ifaces_view, Interfaces};
use crate::nmstate::merged::iface::{opt_hidden, opt_iface_view, MergedInterface, MergedInterfaceView};
use crate::text::{str_eq, str_to_string};

verus! {

/// The number of rounds of up priority fixing; this allows four nested
/// levels of controllers in any order.
pub const INTERFACES_SET_PRIORITY_MAX_RETRY: u32 = 4;

/// The merged interfaces of a desired and a current state: kernel ones keyed
/// by name, userspace ones by name and type, and the order in which desired
/// interfaces were given.
#[non_exhaustive]
pub struct MergedInterfaces {
    pub kernel_ifaces: Vec<MergedInterface>,
    pub user_ifaces: Vec<MergedInterface>,
    pub insert_order: Vec<(String, InterfaceType)>,
}

/// Model of a list of merged interfaces.
pub open spec fn mifaces_view(s: Seq<MergedInterface>) -> Seq<MergedInterfaceView> {
    s.map_values(|m: MergedInterface| m@)
}

/// Whether a merged kernel interface has the given name.
pub open spec fn mkernel_key(m: MergedInterfaceView, name: Seq<char>) -> bool {
    m.merged.base.name@ == name
}

/// Whether a merged userspace interface has the given name and type.
pub open spec fn muser_key(m: MergedInterfaceView, name: Seq<char>, t: InterfaceType) -> bool {
    m.merged.base.name@ == name && same_type(m.merged.base.iface_type, t)
}

/// Whether `i` is the first position holding a merged interface with the
/// given name.
pub open spec fn first_mkernel(s: Seq<MergedInterfaceView>, name: Seq<char>, i: int) -> bool {
    0 <= i < s.len() && mkernel_key(s[i], name) && forall|j: int| 0 <= j < i ==> !mkernel_key(#[trigger] s[j], name)
}

/// Whether `i` is the first position holding a merged interface with the
/// given name and type.
pub open spec fn first_muser(s: Seq<MergedInterfaceView>, name: Seq<char>, t: InterfaceType, i: int) -> bool {
    0 <= i < s.len() && muser_key(s[i], name, t) && forall|j: int| 0 <= j < i ==> !muser_key(#[trigger] s[j], name, t)
}

/// Whether some merged interface has the given name.
pub open spec fn has_mkernel(s: Seq<MergedInterfaceView>, name: Seq<char>) -> bool {
    exists|i: int| 0 <= i < s.len() && #[trigger] mkernel_key(s[i], name)
}

/// Whether some merged interface has the given name and type.
pub open spec fn has_muser(s: Seq<MergedInterfaceView>, name: Seq<char>, t: InterfaceType) -> bool {
    exists|i: int| 0 <= i < s.len() && #[trigger] muser_key(s[i], name, t)
}

pub(crate) fn find_mkernel(s: &Vec<MergedInterface>, name: &str) -> (r: Option<usize>)
    ensures
        match r {
            Some(i) => first_mkernel(mifaces_view(s@), name@, i as int),
            None => !has_mkernel(mifaces_view(s@), name@),
        },
{
    let mut i: usize = 0;
    while i < s.len()
        invariant
            i <= s.len(),
            forall|j: int| 0 <= j < i ==> !mkernel_key(#[trigger] mifaces_view(s@)[j], name@),
        decreases s.len() - i,
    {
        if str_eq(s[i].merged.name(), name) {
            return Some(i);
        }
        i += 1;
    }
    None
}

fn find_muser(s: &Vec<MergedInterface>, name: &str, t: &InterfaceType) -> (r: Option<usize>)
    ensures
        match r {
            Some(i) => first_muser(mifaces_view(s@), name@, *t, i as int),
            None => !has_muser(mifaces_view(s@), name@, *t),
        },
{
    let mut i: usize = 0;
    while i < s.len()
        invariant
            i <= s.len(),
            forall|j: int| 0 <= j < i ==> !muser_key(#[trigger] mifaces_view(s@)[j], name@, *t),
        decreases s.len() - i,
    {
        if str_eq(s[i].merged.name(), name) && s[i].merged.iface_type().same_as(t) {
            return Some(i);
        }
        i += 1;
    }
    None
}

/// Put a merged interface in the list, replacing the first one with the same
/// key or appending it.
fn insert_merged(v: &mut Vec<MergedInterface>, m: MergedInterface, user: bool)
    ensures
        final(v)@.len() >= old(v)@.len(),
        exists|i: int| 0 <= i < final(v)@.len() && #[trigger] final(v)@[i]@ == m@,
{
    let found = if user {
        find_muser(v, m.merged.name(), m.merged.iface_type())
    } else {
        find_mkernel(v, m.merged.name())
    };
    let ghost mv = m@;
    match found {
        Some(i) => {
            v.set(i, m);
            assert(v@[i as int]@ == mv);
        },
        None => {
            v.push(m);
            assert(v@[v@.len() - 1]@ == mv);
        },
    }
}

/// A merged interface with the secrets of each of its interfaces hidden.
pub open spec fn merged_hidden(m: MergedInterfaceView) -> MergedInterfaceView {
    MergedInterfaceView {
        desired: opt_hidden(m.desired),
        current: opt_hidden(m.current),
        merged: iface_hidden(m.merged),
        for_apply: opt_hidden(m.for_apply),
        for_verify: opt_hidden(m.for_verify),
    }
}

fn hide_all_merged(v: &mut Vec<MergedInterface>)
    ensures
        final(v)@.len() == old(v)@.len(),
        forall|k: int|
            0 <= k < old(v)@.len() ==> (#[trigger] final(v)@[k])@ == (MergedInterfaceView {
                desired: opt_hidden(old(v)@[k]@.desired),
                current: opt_hidden(old(v)@[k]@.current),
                merged: iface_hidden(old(v)@[k]@.merged),
                for_apply: opt_hidden(old(v)@[k]@.for_apply),
                for_verify: opt_hidden(old(v)@[k]@.for_verify),
            }),
{
    let ghost orig = v@;
    let mut i: usize = 0;
    while i < v.len()
        invariant
            i <= v.len(),
            v@.len() == orig.len(),
            forall|k: int| i <= k < orig.len() ==> v@[k] == orig[k],
            forall|k: int|
                0 <= k < i ==> (#[trigger] v@[k])@ == (MergedInterfaceView {
                    desired: opt_hidden(orig[k]@.desired),
                    current: opt_hidden(orig[k]@.current),
                    merged: iface_hidden(orig[k]@.merged),
                    for_apply: opt_hidden(orig[k]@.for_apply),
                    for_verify: opt_hidden(orig[k]@.for_verify),
                }),
        decreases orig.len() - i,
    {
        let mut m = v[i].clone();
        m.hide_secrets();
        v.set(i, m);
        i += 1;
    }
}

/// Whether a merged WiFi configuration interface binds to any WiFi interface:
/// it is to be applied up with a configuration naming no base interface.
pub open spec fn binds_any_wifi(m: MergedInterfaceView) -> bool {
    match m.for_apply {
        Some(a) => a.base.state == InterfaceState::Up && match a.section {
            IfaceSection::WifiCfg(Some(w)) => w.base_iface is None,
            _ => false,
        },
        None => false,
    }
}

/// Whether a WiFi physical interface is to be brought up for a WiFi
/// configuration binding to any interface: it exists, and it is not desired
/// absent, down or ignored.
pub open spec fn wifi_phy_to_bring_up(m: MergedInterfaceView) -> bool {
    &&& m.merged.base.iface_type is WifiPhy
    &&& m.current is Some
    &&& !(m.desired matches Some(d) && (d.base.state == InterfaceState::Absent || d.base.state
        == InterfaceState::Down || crate::nmstate::iface_state::state_is_ignore(d.base.state)))
}

impl MergedInterfaces {
    /// No merged interface.
    pub fn new_empty() -> (r: Self)
        ensures
            r.kernel_ifaces@.len() == 0,
            r.user_ifaces@.len() == 0,
            r.insert_order@.len() == 0,
    {
        MergedInterfaces { kernel_ifaces: Vec::new(), user_ifaces: Vec::new(), insert_order: Vec::new() }
    }

    /// Hide the secrets of every merged interface.
    pub fn hide_secrets(&mut self)
        ensures
            final(self).kernel_ifaces@.len() == old(self).kernel_ifaces@.len(),
            final(self).user_ifaces@.len() == old(self).user_ifaces@.len(),
            forall|k: int|
                0 <= k < old(self).kernel_ifaces@.len() ==> (#[trigger] final(self).kernel_ifaces@[k])@
                    == merged_hidden(old(self).kernel_ifaces@[k]@),
            forall|k: int|
                0 <= k < old(self).user_ifaces@.len() ==> (#[trigger] final(self).user_ifaces@[k])@
                    == merged_hidden(old(self).user_ifaces@[k]@),
            final(self).insert_order@ == old(self).insert_order@,
    {
        hide_all_merged(&mut self.user_ifaces);
        hide_all_merged(&mut self.kernel_ifaces);
    }

    /// Position of a merged interface: among userspace ones by name and type
    /// when the type is userspace-only, else among kernel ones by name.
    pub fn position(&self, iface_name: &str, iface_type: &InterfaceType) -> (r: Option<usize>)
        ensures
            type_is_userspace(*iface_type) ==> match r {
                Some(i) => first_muser(mifaces_view(self.user_ifaces@), iface_name@, *iface_type, i as int),
                None => !has_muser(mifaces_view(self.user_ifaces@), iface_name@, *iface_type),
            },
            !type_is_userspace(*iface_type) ==> match r {
                Some(i) => first_mkernel(mifaces_view(self.kernel_ifaces@), iface_name@, i as int),
                None => !has_mkernel(mifaces_view(self.kernel_ifaces@), iface_name@),
            },
    {
        if iface_type.is_userspace() {
            find_muser(&self.user_ifaces, iface_name, iface_type)
        } else {
            find_mkernel(&self.kernel_ifaces, iface_name)
        }
    }

    /// The merged interface of the given name and type.
    pub fn get_iface(&self, iface_name: &str, iface_type: &InterfaceType) -> (r: Option<&MergedInterface>)
        ensures
            type_is_userspace(*iface_type) ==> match r {
                Some(m) => exists|i: int|
                    first_muser(mifaces_view(self.user_ifaces@), iface_name@, *iface_type, i) && m@
                        == self.user_ifaces@[i]@,
                None => !has_muser(mifaces_view(self.user_ifaces@), iface_name@, *iface_type),
            },
            !type_is_userspace(*iface_type) ==> match r {
                Some(m) => exists|i: int|
                    first_mkernel(mifaces_view(self.kernel_ifaces@), iface_name@, i) && m@
                        == self.kernel_ifaces@[i]@,
                None => !has_mkernel(mifaces_view(self.kernel_ifaces@), iface_name@),
            },
    {
        match self.position(iface_name, iface_type) {
            Some(i) => {
                if iface_type.is_userspace() {
                    Some(&self.user_ifaces[i])
                } else {
                    Some(&self.kernel_ifaces[i])
                }
            },
            None => None,
        }
    }

    /// Copies of all merged interfaces, userspace ones first.
    pub fn iter(&self) -> (r: Vec<MergedInterface>)
        ensures
            mifaces_view(r@) == mifaces_view(self.user_ifaces@) + mifaces_view(self.kernel_ifaces@),
    {
        let mut r: Vec<MergedInterface> = Vec::new();
        let mut i: usize = 0;
        while i < self.user_ifaces.len()
            invariant
                i <= self.user_ifaces.len(),
                r@.len() == i,
                forall|k: int| 0 <= k < i ==> (#[trigger] r@[k])@ == self.user_ifaces@[k]@,
            decreases self.user_ifaces.len() - i,
        {
            r.push(self.user_ifaces[i].clone());
            i += 1;
        }
        let nu = r.len();
        let mut j: usize = 0;
        while j < self.kernel_ifaces.len()
            invariant
                j <= self.kernel_ifaces.len(),
                nu == self.user_ifaces@.len(),
                r@.len() == nu + j,
                forall|k: int| 0 <= k < nu ==> (#[trigger] r@[k])@ == self.user_ifaces@[k]@,
                forall|k: int| 0 <= k < j ==> (#[trigger] r@[nu + k])@ == self.kernel_ifaces@[k]@,
            decreases self.kernel_ifaces.len() - j,
        {
            r.push(self.kernel_ifaces[j].clone());
            j += 1;
        }
        proof {
            let rhs = mifaces_view(self.user_ifaces@) + mifaces_view(self.kernel_ifaces@);
            assert forall|k: int| 0 <= k < r@.len() implies mifaces_view(r@)[k] == rhs[k] by {
                if k >= nu {
                    assert(r@[nu + (k - nu)]@ == self.kernel_ifaces@[k - nu]@);
                }
            }
            assert(mifaces_view(r@) =~= rhs);
        }
        r
    }

    /// The interfaces to apply: the interface to apply of each merged
    /// interface that has one.
    pub fn gen_state_for_apply(&self) -> (r: Interfaces)
        ensures
            forall|k: int|
                0 <= k < self.kernel_ifaces@.len() && (#[trigger] self.kernel_ifaces@[k])@.for_apply is Some
                    ==> crate::nmstate::interfaces::all_names(r).contains(
                    self.kernel_ifaces@[k]@.for_apply->0.base.name@,
                ),
            forall|k: int|
                0 <= k < self.user_ifaces@.len() && (#[trigger] self.user_ifaces@[k])@.for_apply is Some
                    ==> crate::nmstate::interfaces::all_names(r).contains(
                    self.user_ifaces@[k]@.for_apply->0.base.name@,
                ),
            all_from_apply(ifaces_view(r.kernel_ifaces@), mifaces_view(self.kernel_ifaces@), mifaces_view(self.user_ifaces@)),
            all_from_apply(ifaces_view(r.user_ifaces@), mifaces_view(self.kernel_ifaces@), mifaces_view(self.user_ifaces@)),
    {
        let ghost kv = mifaces_view(self.kernel_ifaces@);
        let ghost uv = mifaces_view(self.user_ifaces@);
        let mut r = Interfaces::new();
        let mut i: usize = 0;
        while i < self.kernel_ifaces.len()
            invariant
                i <= self.kernel_ifaces.len(),
                forall|k: int|
                    0 <= k < i && (#[trigger] self.kernel_ifaces@[k])@.for_apply is Some
                        ==> crate::nmstate::interfaces::all_names(r).contains(
                        self.kernel_ifaces@[k]@.for_apply->0.base.name@,
                    ),
                kv == mifaces_view(self.kernel_ifaces@),
                uv == mifaces_view(self.user_ifaces@),
                all_from_apply(ifaces_view(r.kernel_ifaces@), kv, uv),
                all_from_apply(ifaces_view(r.user_ifaces@), kv, uv),
            decreases self.kernel_ifaces.len() - i,
        {
            if let Some(a) = &self.kernel_ifaces[i].for_apply {
                let c = a.clone();
                let ghost ok = ifaces_view(r.kernel_ifaces@);
                let ghost ou = ifaces_view(r.user_ifaces@);
                proof {
                    assert(kv[i as int].for_apply == Some(c@));
                    assert(is_apply_form(c@, kv, uv));
                }
                r.push(c);
                proof {
                    lemma_push_keeps_from(ok, ifaces_view(r.kernel_ifaces@), c@, kv, uv);
                    lemma_push_keeps_from(ou, ifaces_view(r.user_ifaces@), c@, kv, uv);
                }
            }
            i += 1;
        }
        let mut j: usize = 0;
        while j < self.user_ifaces.len()
            invariant
                j <= self.user_ifaces.len(),
                forall|k: int|
                    0 <= k < self.kernel_ifaces@.len() && (#[trigger] self.kernel_ifaces@[k])@.for_apply is Some
                        ==> crate::nmstate::interfaces::all_names(r).contains(
                        self.kernel_ifaces@[k]@.for_apply->0.base.name@,
                    ),
                forall|k: int|
                    0 <= k < j && (#[trigger] self.user_ifaces@[k])@.for_apply is Some
                        ==> crate::nmstate::interfaces::all_names(r).contains(
                        self.user_ifaces@[k]@.for_apply->0.base.name@,
                    ),
                kv == mifaces_view(self.kernel_ifaces@),
                uv == mifaces_view(self.user_ifaces@),
                all_from_apply(ifaces_view(r.kernel_ifaces@), kv, uv),
                all_from_apply(ifaces_view(r.user_ifaces@), kv, uv),
            decreases self.user_ifaces.len() - j,
        {
            if let Some(a) = &self.user_ifaces[j].for_apply {
                let c = a.clone();
                let ghost ok = ifaces_view(r.kernel_ifaces@);
                let ghost ou = ifaces_view(r.user_ifaces@);
                proof {
                    assert(uv[j as int].for_apply == Some(c@));
                    assert(is_apply_form(c@, kv, uv));
                }
                r.push(c);
                proof {
                    lemma_push_keeps_from(ok, ifaces_view(r.kernel_ifaces@), c@, kv, uv);
                    lemma_push_keeps_from(ou, ifaces_view(r.user_ifaces@), c@, kv, uv);
                }
            }
            j += 1;
        }
        r
    }

    /// Whether some WiFi configuration binds to any WiFi interface.
    pub fn has_any_bind_wifi(&self) -> (r: bool)
        ensures
            r == exists|k: int| 0 <= k < self.user_ifaces@.len() && #[trigger] binds_any_wifi(self.user_ifaces@[k]@),
    {
        let mut i: usize = 0;
        while i < self.user_ifaces.len()
            invariant
                i <= self.user_ifaces.len(),
                forall|k: int| 0 <= k < i ==> !#[trigger] binds_any_wifi(self.user_ifaces@[k]@),
            decreases self.user_ifaces.len() - i,
        {
            if let Some(Interface::WifiCfg(w)) = &self.user_ifaces[i].for_apply {
                if w.base.state.is_up() {
                    if let Some(c) = &w.wifi {
                        if c.base_iface.is_none() {
                            assert(binds_any_wifi(self.user_ifaces@[i as int]@));
                            return true;
                        }
                    }
                }
            }
            i += 1;
        }
        false
    }

    /// When a WiFi configuration binds to any WiFi interface, every suitable
    /// WiFi physical interface is marked changed and brought up.
    pub fn post_merge_sanitize_wifi(&mut self)
        ensures
            final(self).user_ifaces@ == old(self).user_ifaces@,
            final(self).insert_order@ == old(self).insert_order@,
            final(self).kernel_ifaces@.len() == old(self).kernel_ifaces@.len(),
            forall|k: int|
                0 <= k < old(self).kernel_ifaces@.len() ==> {
                    let o = old(self).kernel_ifaces@[k]@;
                    let n = (#[trigger] final(self).kernel_ifaces@[k])@;
                    if (exists|x: int|
                        0 <= x < old(self).user_ifaces@.len() && #[trigger] binds_any_wifi(
                            old(self).user_ifaces@[x]@,
                        )) && wifi_phy_to_bring_up(o) {
                        n == (MergedInterfaceView {
                            for_apply: crate::nmstate::merged::iface::with_state(
                                crate::nmstate::merged::iface::changed_marker(o.current),
                                InterfaceState::Up,
                            ),
                            ..o
                        })
                    } else {
                        n == o
                    }
                },
    {
        if !self.has_any_bind_wifi() {
            return;
        }
        let ghost orig = self.kernel_ifaces@;
        let mut i: usize = 0;
        while i < self.kernel_ifaces.len()
            invariant
                i <= self.kernel_ifaces.len(),
                self.kernel_ifaces@.len() == orig.len(),
                orig == old(self).kernel_ifaces@,
                self.user_ifaces@ == old(self).user_ifaces@,
                self.insert_order@ == old(self).insert_order@,
                exists|x: int| 0 <= x < old(self).user_ifaces@.len() && #[trigger] binds_any_wifi(
                    old(self).user_ifaces@[x]@,
                ),
                forall|k: int| i <= k < orig.len() ==> self.kernel_ifaces@[k] == orig[k],
                forall|k: int|
                    0 <= k < i ==> {
                        let o = orig[k]@;
                        let n = (#[trigger] self.kernel_ifaces@[k])@;
                        if wifi_phy_to_bring_up(o) {
                            n == (MergedInterfaceView {
                                for_apply: crate::nmstate::merged::iface::with_state(
                                    crate::nmstate::merged::iface::changed_marker(o.current),
                                    InterfaceState::Up,
                                ),
                                ..o
                            })
                        } else {
                            n == o
                        }
                    },
            decreases orig.len() - i,
        {
            let m = &self.kernel_ifaces[i];
            let desired_off = match &m.desired {
                Some(d) => d.is_absent() || d.is_down() || d.is_ignore(),
                None => false,
            };
            if matches!(m.merged.iface_type(), InterfaceType::WifiPhy) && !desired_off && m.current.is_some() {
                let mut x = m.clone();
                x.mark_as_changed();
                if let Some(a) = &mut x.for_apply {
                    a.base_iface_mut().state = InterfaceState::Up;
                }
                self.kernel_ifaces.set(i, x);
            }
            i += 1;
        }
    }
}

/// Whether an interface is the form to apply of some merged interface.
pub open spec fn is_apply_form(v: InterfaceView, kernel: Seq<MergedInterfaceView>, user: Seq<MergedInterfaceView>) -> bool {
    ||| exists|k: int| 0 <= k < kernel.len() && (#[trigger] kernel[k]).for_apply == Some(v)
    ||| exists|k: int| 0 <= k < user.len() && (#[trigger] user[k]).for_apply == Some(v)
}

/// Whether every interface of a list is the form to apply of some merged
/// interface.
pub open spec fn all_from_apply(s: Seq<InterfaceView>, kernel: Seq<MergedInterfaceView>, user: Seq<MergedInterfaceView>) -> bool {
    forall|x: int| 0 <= x < s.len() ==> #[trigger] is_apply_form(s[x], kernel, user)
}

proof fn lemma_push_keeps_from(
    o: Seq<InterfaceView>,
    n: Seq<InterfaceView>,
    v: InterfaceView,
    kernel: Seq<MergedInterfaceView>,
    user: Seq<MergedInterfaceView>,
)
    requires
        all_from_apply(o, kernel, user),
        is_apply_form(v, kernel, user),
        n == o || n == o.push(v) || exists|i: int| 0 <= i < o.len() && n == o.update(i, v),
    ensures
        all_from_apply(n, kernel, user),
{
    if n == o {
    } else if n == o.push(v) {
        assert forall|x: int| 0 <= x < n.len() implies #[trigger] is_apply_form(n[x], kernel, user) by {
            if x < o.len() {
                assert(n[x] == o[x]);
            }
        }
    } else {
        let i = choose|i: int| 0 <= i < o.len() && n == o.update(i, v);
        assert forall|x: int| 0 <= x < n.len() implies #[trigger] is_apply_form(n[x], kernel, user) by {
            if x != i {
                assert(n[x] == o[x]);
            }
        }
    }
}


/// Error when an interface desired absent (or a virtual one desired down)
/// is still found: only a virtual interface is expected to be gone.
pub fn verify_desire_absent_but_found_in_current(des_iface: &Interface, cur_iface: &Interface) -> (r: Result<
    (),
    NipartError,
>)
    ensures
        r is Err <==> cur_iface.is_virtual_spec(),
        r matches Err(e) ==> e.kind == ErrorKind::VerificationError,
{
    if cur_iface.is_virtual() {
        let mut msg = str_to_string("Absent/Down interface ");
        msg.append(des_iface.name());
        msg.append(" still found");
        Err(NipartError::new(ErrorKind::VerificationError, msg))
    } else {
        Ok(())
    }
}

/// The first position of a list of merged interfaces holding one with the
/// given name and type identity.
pub open spec fn first_user_keyed(s: Seq<MergedInterfaceView>, name: Seq<char>, key: (int, Seq<char>), i: int) -> bool {
    &&& 0 <= i < s.len()
    &&& s[i].merged.base.name@ == name && type_key(s[i].merged.base.iface_type) == key
    &&& forall|j: int|
        0 <= j < i ==> !((#[trigger] s[j]).merged.base.name@ == name && type_key(s[j].merged.base.iface_type) == key)
}

/// The merged interface found by name the way [MergedInterfaces::get_iface]
/// finds it: for a userspace type, the first userspace one of that name and
/// type identity; otherwise the first kernel one of that name.
pub open spec fn find_merged(
    kernel: Seq<MergedInterfaceView>,
    user: Seq<MergedInterfaceView>,
    name: Seq<char>,
    in_user: bool,
    key: (int, Seq<char>),
) -> Option<MergedInterfaceView> {
    if in_user {
        if exists|i: int| first_user_keyed(user, name, key, i) {
            Some(user[choose|i: int| first_user_keyed(user, name, key, i)])
        } else {
            None
        }
    } else if exists|i: int| first_mkernel(kernel, name, i) {
        Some(kernel[choose|i: int| first_mkernel(kernel, name, i)])
    } else {
        None
    }
}

/// Where an interface of the given optional controller type is looked up:
/// whether among userspace interfaces, and the type identity. No type means
/// the unknown type named `unknown`.
pub open spec fn ctrl_lookup(t: Option<InterfaceType>) -> (bool, (int, Seq<char>)) {
    match t {
        Some(x) => (type_is_userspace(x), type_key(x)),
        None => (true, (22int, "unknown"@)),
    }
}

/// The interface to apply of an optional merged interface.
pub open spec fn apply_of(m: Option<MergedInterfaceView>) -> Option<InterfaceView> {
    match m {
        Some(x) => x.for_apply,
        None => None,
    }
}

/// Whether an up priority is usable: the interface has no controller, or a
/// priority other than 0.
pub open spec fn up_priority_valid(b: BaseInterfaceView) -> bool {
    !base_has_controller(b) || b.up_priority != 0
}

/// The priority that comes after another one, wrapping around at the
/// largest value.
pub open spec fn prio_succ(p: u32) -> u32 {
    if p == 0xffff_ffffu32 {
        0
    } else {
        (p + 1) as u32
    }
}

/// One step of the first pass of up priority fixing, for one desired
/// interface: an interface to apply that is up, without a usable priority,
/// whose controller is to be applied too, gets its controller's pending
/// priority plus one, or else the controller's own priority plus one when
/// usable; when neither exists the round fails.
pub open spec fn ctrl_step(
    kernel: Seq<MergedInterfaceView>,
    user: Seq<MergedInterfaceView>,
    st: (Map<Seq<char>, u32>, bool),
    e: (String, InterfaceType),
) -> (Map<Seq<char>, u32>, bool) {
    match apply_of(find_merged(kernel, user, e.0@, type_is_userspace(e.1), type_key(e.1))) {
        Some(a) => if a.base.state == InterfaceState::Up && !up_priority_valid(a.base) {
            let c = a.base.controller->0@;
            let lk = ctrl_lookup(a.base.controller_type);
            match apply_of(find_merged(kernel, user, c, lk.0, lk.1)) {
                Some(ci) => if st.0.contains_key(c) {
                    (st.0.insert(e.0@, prio_succ(st.0[c])), st.1)
                } else if up_priority_valid(ci.base) {
                    (st.0.insert(e.0@, prio_succ(ci.base.up_priority)), st.1)
                } else {
                    (st.0, false)
                },
                None => st,
            }
        } else {
            st
        },
        None => st,
    }
}

/// The first pass over the desired order: pending priorities of ports, and
/// whether every port's controller had one.
pub open spec fn ctrl_pass(
    kernel: Seq<MergedInterfaceView>,
    user: Seq<MergedInterfaceView>,
    order: Seq<(String, InterfaceType)>,
) -> (Map<Seq<char>, u32>, bool)
    decreases order.len(),
{
    if order.len() == 0 {
        (Map::empty(), true)
    } else {
        ctrl_step(kernel, user, ctrl_pass(kernel, user, order.drop_last()), order.last())
    }
}

/// One step of the second pass, for one desired interface: an interface to
/// apply that is up and has a parent gets the parent's pending priority plus
/// one, or else the priority plus one of the parent kernel interface to
/// apply when usable.
pub open spec fn parent_step(
    kernel: Seq<MergedInterfaceView>,
    user: Seq<MergedInterfaceView>,
    pm: Map<Seq<char>, u32>,
    e: (String, InterfaceType),
) -> Map<Seq<char>, u32> {
    match apply_of(find_merged(kernel, user, e.0@, type_is_userspace(e.1), type_key(e.1))) {
        Some(a) => if a.base.state == InterfaceState::Up {
            match iface_parent(a) {
                Some(p) => if pm.contains_key(p) {
                    pm.insert(e.0@, prio_succ(pm[p]))
                } else {
                    match apply_of(find_merged(kernel, user, p, false, type_key(InterfaceType::Ethernet))) {
                        Some(pa) => if up_priority_valid(pa.base) {
                            pm.insert(e.0@, prio_succ(pa.base.up_priority))
                        } else {
                            pm
                        },
                        None => pm,
                    }
                },
                None => pm,
            }
        } else {
            pm
        },
        None => pm,
    }
}

/// The second pass over the desired order, from the first pass's pending
/// priorities.
pub open spec fn parent_pass(
    kernel: Seq<MergedInterfaceView>,
    user: Seq<MergedInterfaceView>,
    pm: Map<Seq<char>, u32>,
    order: Seq<(String, InterfaceType)>,
) -> Map<Seq<char>, u32>
    decreases order.len(),
{
    if order.len() == 0 {
        pm
    } else {
        parent_step(kernel, user, parent_pass(kernel, user, pm, order.drop_last()), order.last())
    }
}

/// The pending priorities of a round and whether it succeeded: the first
/// pass, then the second one only when the first succeeded.
pub open spec fn round_pending(
    kernel: Seq<MergedInterfaceView>,
    user: Seq<MergedInterfaceView>,
    order: Seq<(String, InterfaceType)>,
) -> (Map<Seq<char>, u32>, bool) {
    let st = ctrl_pass(kernel, user, order);
    if st.1 {
        (parent_pass(kernel, user, st.0, order), true)
    } else {
        st
    }
}

/// A merged interface with the up priority of its interface to apply set.
pub open spec fn with_apply_priority(m: MergedInterfaceView, p: u32) -> MergedInterfaceView {
    MergedInterfaceView {
        for_apply: match m.for_apply {
            Some(a) => Some(InterfaceView { base: BaseInterfaceView { up_priority: p, ..a.base }, ..a }),
            None => None,
        },
        ..m
    }
}

/// Kernel interfaces with pending priorities applied: the first interface
/// of each pending name gets its priority.
pub open spec fn prioritized(kernel: Seq<MergedInterfaceView>, pm: Map<Seq<char>, u32>) -> Seq<MergedInterfaceView> {
    Seq::new(
        kernel.len(),
        |x: int|
            match pending_priority(kernel, pm, x) {
                Some(p) => with_apply_priority(kernel[x], p),
                None => kernel[x],
            },
    )
}

/// Rounds of up priority fixing, at most `n` of them, until one succeeds:
/// the kernel interfaces after them and whether one succeeded.
pub open spec fn priority_rounds(
    kernel: Seq<MergedInterfaceView>,
    user: Seq<MergedInterfaceView>,
    order: Seq<(String, InterfaceType)>,
    n: nat,
) -> (Seq<MergedInterfaceView>, bool)
    decreases n,
{
    if n == 0 {
        (kernel, false)
    } else {
        let st = round_pending(kernel, user, order);
        let next = prioritized(kernel, st.0);
        if st.1 {
            (next, true)
        } else {
            priority_rounds(next, user, order, (n - 1) as nat)
        }
    }
}

/// Whether a list of pending priorities has distinct names and holds
/// exactly the entries of the map.
pub open spec fn pend_agrees(p: Seq<(String, u32)>, m: Map<Seq<char>, u32>) -> bool {
    &&& forall|i: int, j: int| 0 <= i < j < p.len() ==> (#[trigger] p[i]).0@ != (#[trigger] p[j]).0@
    &&& forall|i: int| 0 <= i < p.len() ==> m.contains_key((#[trigger] p[i]).0@) && m[p[i].0@] == p[i].1
    &&& forall|n: Seq<char>| #[trigger] m.contains_key(n) ==> exists|i: int| 0 <= i < p.len() && (#[trigger] p[i]).0@ == n
}

proof fn lemma_first_mkernel_unique(s: Seq<MergedInterfaceView>, n: Seq<char>, i: int, j: int)
    requires
        first_mkernel(s, n, i),
        first_mkernel(s, n, j),
    ensures
        i == j,
{
    if i < j {
        assert(!mkernel_key(s[i], n));
    } else if j < i {
        assert(!mkernel_key(s[j], n));
    }
}

proof fn lemma_first_user_unique(s: Seq<MergedInterfaceView>, n: Seq<char>, k: (int, Seq<char>), i: int, j: int)
    requires
        first_user_keyed(s, n, k, i),
        first_user_keyed(s, n, k, j),
    ensures
        i == j,
{
    if i < j {
        assert(!(s[i].merged.base.name@ == n && type_key(s[i].merged.base.iface_type) == k));
    } else if j < i {
        assert(!(s[j].merged.base.name@ == n && type_key(s[j].merged.base.iface_type) == k));
    }
}

fn pending_get(p: &Vec<(String, u32)>, name: &str, Ghost(m): Ghost<Map<Seq<char>, u32>>) -> (r: Option<u32>)
    requires
        pend_agrees(p@, m),
    ensures
        r == (if m.contains_key(name@) {
            Some(m[name@])
        } else {
            None
        }),
{
    let mut i: usize = 0;
    while i < p.len()
        invariant
            i <= p.len(),
            pend_agrees(p@, m),
            forall|j: int| 0 <= j < i ==> (#[trigger] p@[j]).0@ != name@,
        decreases p.len() - i,
    {
        if str_eq(p[i].0.as_str(), name) {
            assert(m.contains_key(p@[i as int].0@));
            return Some(p[i].1);
        }
        i += 1;
    }
    proof {
        if m.contains_key(name@) {
            let k = choose|k: int| 0 <= k < p@.len() && (#[trigger] p@[k]).0@ == name@;
            assert(p@[k].0@ != name@);
        }
    }
    None
}

fn pending_insert(p: &mut Vec<(String, u32)>, name: &str, v: u32, Ghost(m): Ghost<Map<Seq<char>, u32>>)
    requires
        pend_agrees(old(p)@, m),
    ensures
        pend_agrees(final(p)@, m.insert(name@, v)),
{
    let ghost m2 = m.insert(name@, v);
    let mut i: usize = 0;
    while i < p.len()
        invariant
            i <= p.len(),
            p@ == old(p)@,
            pend_agrees(p@, m),
            m2 == m.insert(name@, v),
            forall|j: int| 0 <= j < i ==> (#[trigger] p@[j]).0@ != name@,
        decreases p.len() - i,
    {
        if str_eq(p[i].0.as_str(), name) {
            let ghost before = p@;
            p.set(i, (str_to_string(name), v));
            proof {
                assert forall|a: int, b: int| 0 <= a < b < p@.len() implies (#[trigger] p@[a]).0@ != (
                #[trigger] p@[b]).0@ by {
                    assert(before[a].0@ != before[b].0@);
                }
                assert forall|a: int| 0 <= a < p@.len() implies m2.contains_key((#[trigger] p@[a]).0@) && m2[p@[a].0@]
                    == p@[a].1 by {
                    if a != i {
                        assert(before[a].0@ != before[i as int].0@);
                        assert(m.contains_key(before[a].0@));
                    }
                }
                assert forall|n: Seq<char>| #[trigger] m2.contains_key(n) implies exists|a: int|
                    0 <= a < p@.len() && (#[trigger] p@[a]).0@ == n by {
                    if n == name@ {
                        assert(p@[i as int].0@ == n);
                    } else {
                        assert(m.contains_key(n));
                        let a = choose|a: int| 0 <= a < before.len() && (#[trigger] before[a]).0@ == n;
                        assert(p@[a].0@ == n);
                    }
                }
            }
            return;
        }
        i += 1;
    }
    let ghost before = p@;
    p.push((str_to_string(name), v));
    proof {
        assert forall|a: int, b: int| 0 <= a < b < p@.len() implies (#[trigger] p@[a]).0@ != (#[trigger] p@[b]).0@ by {
            if b < before.len() {
                assert(before[a].0@ != before[b].0@);
            } else {
                assert(before[a].0@ != name@);
            }
        }
        assert forall|a: int| 0 <= a < p@.len() implies m2.contains_key((#[trigger] p@[a]).0@) && m2[p@[a].0@]
            == p@[a].1 by {
            if a < before.len() {
                assert(before[a].0@ != name@);
                assert(m.contains_key(before[a].0@));
            }
        }
        assert forall|n: Seq<char>| #[trigger] m2.contains_key(n) implies exists|a: int|
            0 <= a < p@.len() && (#[trigger] p@[a]).0@ == n by {
            if n == name@ {
                assert(p@[before.len() as int].0@ == n);
            } else {
                assert(m.contains_key(n));
                let a = choose|a: int| 0 <= a < before.len() && (#[trigger] before[a]).0@ == n;
                assert(p@[a].0@ == n);
            }
        }
    }
}

fn set_apply_priority(m: &mut MergedInterface, prio: u32)
    ensures
        final(m)@ == with_apply_priority(old(m)@, prio),
{
    if let Some(a) = &mut m.for_apply {
        a.base_iface_mut().up_priority = prio;
    }
}

fn next_priority(p: u32) -> (r: u32)
    ensures
        r == prio_succ(p),
{
    if p == 0xffff_ffffu32 {
        0
    } else {
        p + 1
    }
}

/// The priority the kernel interface at a position gets from the pending
/// ones: that of its name when it is the first interface of that name.
pub open spec fn pending_priority(kernel: Seq<MergedInterfaceView>, pm: Map<Seq<char>, u32>, x: int) -> Option<u32> {
    let n = kernel[x].merged.base.name@;
    if first_mkernel(kernel, n, x) && pm.contains_key(n) {
        Some(pm[n])
    } else {
        None
    }
}

fn apply_priorities(v: &mut Vec<MergedInterface>, prios: &Vec<Option<u32>>)
    requires
        prios@.len() == old(v)@.len(),
    ensures
        final(v)@.len() == old(v)@.len(),
        forall|x: int|
            0 <= x < old(v)@.len() ==> (#[trigger] final(v)@[x])@ == match prios@[x] {
                Some(p) => with_apply_priority(old(v)@[x]@, p),
                None => old(v)@[x]@,
            },
{
    let mut x: usize = 0;
    while x < v.len()
        invariant
            x <= v.len(),
            v@.len() == old(v)@.len(),
            prios@.len() == old(v)@.len(),
            forall|y: int|
                0 <= y < x ==> (#[trigger] v@[y])@ == match prios@[y] {
                    Some(p) => with_apply_priority(old(v)@[y]@, p),
                    None => old(v)@[y]@,
                },
            forall|y: int| x <= y < v@.len() ==> #[trigger] v@[y] == old(v)@[y],
        decreases v.len() - x,
    {
        if let Some(p) = prios[x] {
            let mut m = v[x].clone();
            set_apply_priority(&mut m, p);
            v.set(x, m);
        }
        x += 1;
    }
}

impl MergedInterfaces {
    /// The interface to apply of the merged interface found by name and type
    /// the way [MergedInterfaces::get_iface] finds it.
    fn apply_lookup(&self, name: &str, t: &InterfaceType) -> (r: Option<&Interface>)
        ensures
            opt_iface_view(
                match r {
                    Some(i) => Some(*i),
                    None => None,
                },
            ) == apply_of(
                find_merged(
                    mifaces_view(self.kernel_ifaces@),
                    mifaces_view(self.user_ifaces@),
                    name@,
                    type_is_userspace(*t),
                    type_key(*t),
                ),
            ),
    {
        let ghost kv = mifaces_view(self.kernel_ifaces@);
        let ghost uv = mifaces_view(self.user_ifaces@);
        if t.is_userspace() {
            match find_muser(&self.user_ifaces, name, t) {
                Some(i) => {
                    proof {
                        assert(first_user_keyed(uv, name@, type_key(*t), i as int));
                        let j = choose|j: int| first_user_keyed(uv, name@, type_key(*t), j);
                        lemma_first_user_unique(uv, name@, type_key(*t), i as int, j);
                    }
                    match &self.user_ifaces[i].for_apply {
                        Some(a) => Some(a),
                        None => None,
                    }
                },
                None => {
                    proof {
                        if exists|j: int| first_user_keyed(uv, name@, type_key(*t), j) {
                            let j = choose|j: int| first_user_keyed(uv, name@, type_key(*t), j);
                            assert(muser_key(uv[j], name@, *t));
                        }
                    }
                    None
                },
            }
        } else {
            match find_mkernel(&self.kernel_ifaces, name) {
                Some(i) => {
                    proof {
                        let j = choose|j: int| first_mkernel(kv, name@, j);
                        lemma_first_mkernel_unique(kv, name@, i as int, j);
                    }
                    match &self.kernel_ifaces[i].for_apply {
                        Some(a) => Some(a),
                        None => None,
                    }
                },
                None => {
                    proof {
                        if exists|j: int| first_mkernel(kv, name@, j) {
                            let j = choose|j: int| first_mkernel(kv, name@, j);
                            assert(mkernel_key(kv[j], name@));
                        }
                    }
                    None
                },
            }
        }
    }

    fn first_pass(&self) -> (r: (Vec<(String, u32)>, bool, Ghost<Map<Seq<char>, u32>>))
        ensures
            pend_agrees(r.0@, r.2@),
            (r.2@, r.1) == ctrl_pass(
                mifaces_view(self.kernel_ifaces@),
                mifaces_view(self.user_ifaces@),
                self.insert_order@,
            ),
    {
        let ghost kv = mifaces_view(self.kernel_ifaces@);
        let ghost uv = mifaces_view(self.user_ifaces@);
        let ghost order = self.insert_order@;
        let mut ret = true;
        let mut pending: Vec<(String, u32)> = Vec::new();
        let ghost mut gm: Map<Seq<char>, u32> = Map::empty();
        let mut i: usize = 0;
        while i < self.insert_order.len()
            invariant
                i <= self.insert_order.len(),
                kv == mifaces_view(self.kernel_ifaces@),
                uv == mifaces_view(self.user_ifaces@),
                order == self.insert_order@,
                pend_agrees(pending@, gm),
                (gm, ret) == ctrl_pass(kv, uv, order.take(i as int)),
            decreases self.insert_order.len() - i,
        {
            proof {
                assert(order.take(i + 1).drop_last() =~= order.take(i as int));
            }
            let iface_name = self.insert_order[i].0.as_str();
            let iface_type = &self.insert_order[i].1;
            if let Some(iface) = self.apply_lookup(iface_name, iface_type) {
                if iface.is_up() && !iface.base_iface().is_up_priority_valid() {
                    if let Some(ctrl_name) = &iface.base_iface().controller {
                        let ctrl_type = match &iface.base_iface().controller_type {
                            Some(t) => t.clone(),
                            None => InterfaceType::default(),
                        };
                        if let Some(ctrl_iface) = self.apply_lookup(ctrl_name.as_str(), &ctrl_type) {
                            match pending_get(&pending, ctrl_name.as_str(), Ghost(gm)) {
                                Some(ctrl_pri) => {
                                    pending_insert(&mut pending, iface_name, next_priority(ctrl_pri), Ghost(gm));
                                    proof {
                                        gm = gm.insert(iface_name@, prio_succ(ctrl_pri));
                                    }
                                },
                                None => {
                                    if ctrl_iface.base_iface().is_up_priority_valid() {
                                        let p = next_priority(ctrl_iface.base_iface().up_priority);
                                        pending_insert(&mut pending, iface_name, p, Ghost(gm));
                                        proof {
                                            gm = gm.insert(iface_name@, p);
                                        }
                                    } else {
                                        ret = false;
                                    }
                                },
                            }
                        }
                    }
                }
            }
            i += 1;
        }
        proof {
            assert(order.take(order.len() as int) =~= order);
        }
        (pending, ret, Ghost(gm))
    }

    fn second_pass(&self, pending: &mut Vec<(String, u32)>, Ghost(m1): Ghost<Map<Seq<char>, u32>>) -> (r: Ghost<
        Map<Seq<char>, u32>,
    >)
        requires
            pend_agrees(old(pending)@, m1),
        ensures
            pend_agrees(final(pending)@, r@),
            r@ == parent_pass(mifaces_view(self.kernel_ifaces@), mifaces_view(self.user_ifaces@), m1, self.insert_order@),
    {
        let ghost kv = mifaces_view(self.kernel_ifaces@);
        let ghost uv = mifaces_view(self.user_ifaces@);
        let ghost order = self.insert_order@;
        let ghost mut gm = m1;
        let mut j: usize = 0;
        while j < self.insert_order.len()
            invariant
                j <= self.insert_order.len(),
                kv == mifaces_view(self.kernel_ifaces@),
                uv == mifaces_view(self.user_ifaces@),
                order == self.insert_order@,
                pend_agrees(pending@, gm),
                gm == parent_pass(kv, uv, m1, order.take(j as int)),
            decreases self.insert_order.len() - j,
        {
            proof {
                assert(order.take(j + 1).drop_last() =~= order.take(j as int));
            }
            let iface_name = self.insert_order[j].0.as_str();
            let iface_type = &self.insert_order[j].1;
            if let Some(iface) = self.apply_lookup(iface_name, iface_type) {
                if iface.is_up() {
                    if let Some(parent) = iface.parent() {
                        match pending_get(pending, parent, Ghost(gm)) {
                            Some(parent_priority) => {
                                pending_insert(pending, iface_name, next_priority(parent_priority), Ghost(gm));
                                proof {
                                    gm = gm.insert(iface_name@, prio_succ(parent_priority));
                                }
                            },
                            None => {
                                if let Some(parent_iface) = self.apply_lookup(parent, &InterfaceType::Ethernet) {
                                    if parent_iface.base_iface().is_up_priority_valid() {
                                        let p = next_priority(parent_iface.base_iface().up_priority);
                                        pending_insert(pending, iface_name, p, Ghost(gm));
                                        proof {
                                            gm = gm.insert(iface_name@, p);
                                        }
                                    }
                                }
                            },
                        }
                    }
                }
            }
            j += 1;
        }
        proof {
            assert(order.take(order.len() as int) =~= order);
        }
        Ghost(gm)
    }

    /// The priority each kernel interface gets from the pending ones.
    fn target_priorities(&self, pending: &Vec<(String, u32)>, Ghost(fm): Ghost<Map<Seq<char>, u32>>) -> (r: Vec<
        Option<u32>,
    >)
        requires
            pend_agrees(pending@, fm),
        ensures
            r@.len() == self.kernel_ifaces@.len(),
            forall|x: int|
                0 <= x < r@.len() ==> #[trigger] r@[x] == pending_priority(mifaces_view(self.kernel_ifaces@), fm, x),
    {
        let ghost kv = mifaces_view(self.kernel_ifaces@);
        let mut out: Vec<Option<u32>> = Vec::new();
        let mut x: usize = 0;
        while x < self.kernel_ifaces.len()
            invariant
                x <= self.kernel_ifaces.len(),
                kv == mifaces_view(self.kernel_ifaces@),
                pend_agrees(pending@, fm),
                out@.len() == x,
                forall|y: int| 0 <= y < x ==> #[trigger] out@[y] == pending_priority(kv, fm, y),
            decreases self.kernel_ifaces.len() - x,
        {
            let name = self.kernel_ifaces[x].merged.name();
            let first = match find_mkernel(&self.kernel_ifaces, name) {
                Some(p) => p == x,
                None => false,
            };
            proof {
                let n = kv[x as int].merged.base.name@;
                assert(mkernel_key(kv[x as int], n));
                if first_mkernel(kv, n, x as int) {
                    let p = choose|p: int| first_mkernel(kv, n, p);
                    lemma_first_mkernel_unique(kv, n, x as int, p);
                }
            }
            if first {
                out.push(pending_get(pending, name, Ghost(fm)));
            } else {
                out.push(None);
            }
            x += 1;
        }
        out
    }

    /// One round of fixing up priorities of the interfaces to apply, in the
    /// order interfaces were desired: a port gets its controller's priority
    /// plus one, and when every port could be given one, an interface with
    /// a parent gets its parent's priority plus one. Returns whether every
    /// port's controller had a priority. Only up priorities of kernel
    /// interfaces to apply change.
    pub fn set_ifaces_up_priority(&mut self) -> (r: bool)
        ensures
            ({
                let kv = mifaces_view(old(self).kernel_ifaces@);
                let st = round_pending(kv, mifaces_view(old(self).user_ifaces@), old(self).insert_order@);
                &&& r == st.1
                &&& mifaces_view(final(self).kernel_ifaces@) == prioritized(kv, st.0)
            }),
            final(self).user_ifaces@ == old(self).user_ifaces@,
            final(self).insert_order@ == old(self).insert_order@,
    {
        let (mut pending, ret, Ghost(m1)) = self.first_pass();
        let ghost mut fm = m1;
        if ret {
            let Ghost(m2) = self.second_pass(&mut pending, Ghost(m1));
            proof {
                fm = m2;
            }
        }
        let prios = self.target_priorities(&pending, Ghost(fm));
        apply_priorities(&mut self.kernel_ifaces, &prios);
        proof {
            let kv = mifaces_view(old(self).kernel_ifaces@);
            assert(mifaces_view(self.kernel_ifaces@) =~= prioritized(kv, fm));
        }
        ret
    }

    /// Fix up priorities in up to four rounds, stopping at the first round
    /// that succeeds; refused when none does.
    pub fn _set_up_priority(&mut self) -> (r: Result<(), NipartError>)
        ensures
            ({
                let res = priority_rounds(
                    mifaces_view(old(self).kernel_ifaces@),
                    mifaces_view(old(self).user_ifaces@),
                    old(self).insert_order@,
                    INTERFACES_SET_PRIORITY_MAX_RETRY as nat,
                );
                &&& mifaces_view(final(self).kernel_ifaces@) == res.0
                &&& r is Ok <==> res.1
            }),
            r matches Err(e) ==> e.kind == ErrorKind::InvalidArgument,
            final(self).user_ifaces@ == old(self).user_ifaces@,
            final(self).insert_order@ == old(self).insert_order@,
    {
        let ghost target = priority_rounds(
            mifaces_view(self.kernel_ifaces@),
            mifaces_view(self.user_ifaces@),
            self.insert_order@,
            INTERFACES_SET_PRIORITY_MAX_RETRY as nat,
        );
        let mut n: u32 = 0;
        while n < INTERFACES_SET_PRIORITY_MAX_RETRY
            invariant
                n <= INTERFACES_SET_PRIORITY_MAX_RETRY,
                self.user_ifaces@ == old(self).user_ifaces@,
                self.insert_order@ == old(self).insert_order@,
                target == priority_rounds(
                    mifaces_view(old(self).kernel_ifaces@),
                    mifaces_view(old(self).user_ifaces@),
                    old(self).insert_order@,
                    INTERFACES_SET_PRIORITY_MAX_RETRY as nat,
                ),
                priority_rounds(
                    mifaces_view(self.kernel_ifaces@),
                    mifaces_view(self.user_ifaces@),
                    self.insert_order@,
                    (INTERFACES_SET_PRIORITY_MAX_RETRY - n) as nat,
                ) == target,
            decreases INTERFACES_SET_PRIORITY_MAX_RETRY - n,
        {
            if self.set_ifaces_up_priority() {
                return Ok(());
            }
            n += 1;
        }
        Err(
            NipartError::from_str_msg(
                ErrorKind::InvalidArgument,
                "Failed to set up priority: nmstate only support nested interface up to 4 levels. To support more nest level, please order the interfaces in desire state to place controller before its ports",
            ),
        )
    }

    /// Type specific clean ups after merging: loopback and VLAN defaults,
    /// veth peers, WiFi interfaces to bring up.
    pub fn post_merge_sanitize(&mut self) -> (r: Result<(), NipartError>)
        ensures
            r is Ok,
            final(self).insert_order@ == old(self).insert_order@,
            final(self).kernel_ifaces@.len() >= old(self).kernel_ifaces@.len(),
            final(self).user_ifaces@.len() == old(self).user_ifaces@.len(),
    {
        sanitize_type_specific(&mut self.kernel_ifaces);
        sanitize_type_specific(&mut self.user_ifaces);
        self.post_merge_sanitize_veth();
        self.post_merge_sanitize_wifi();
        Ok(())
    }
}

fn sanitize_type_specific(v: &mut Vec<MergedInterface>)
    ensures
        final(v)@.len() == old(v)@.len(),
{
    let mut i: usize = 0;
    while i < v.len()
        invariant
            i <= v.len(),
            v@.len() == old(v)@.len(),
        decreases v.len() - i,
    {
        let mut m = v[i].clone();
        if matches!(m.merged.iface_type(), InterfaceType::Loopback) {
            m.post_merge_sanitize_loopback();
        }
        if matches!(m.merged.iface_type(), InterfaceType::Vlan) {
            m.post_merge_sanitize_vlan();
        }
        v.set(i, m);
        i += 1;
    }
}

/// The names of the interfaces of a list that are not ignored, in order.
pub open spec fn desired_names(s: Seq<InterfaceView>) -> Seq<Seq<char>>
    decreases s.len(),
{
    if s.len() == 0 {
        Seq::empty()
    } else if crate::nmstate::iface_state::state_is_ignore(s.last().base.state) {
        desired_names(s.drop_last())
    } else {
        desired_names(s.drop_last()).push(s.last().base.name@)
    }
}

/// The names of an insertion order.
pub open spec fn order_names(o: Seq<(String, InterfaceType)>) -> Seq<Seq<char>> {
    o.map_values(|p: (String, InterfaceType)| p.0@)
}

proof fn lemma_desired_names_same(a: Seq<InterfaceView>, b: Seq<InterfaceView>)
    requires
        a.len() == b.len(),
        forall|i: int|
            0 <= i < a.len() ==> (#[trigger] a[i]).base.name == b[i].base.name && a[i].base.state == b[i].base.state,
    ensures
        desired_names(a) == desired_names(b),
    decreases a.len(),
{
    if a.len() > 0 {
        lemma_desired_names_same(a.drop_last(), b.drop_last());
        assert(a.last() == a[a.len() - 1]);
    }
}

impl MergedInterfaces {
    /// Merge desired interfaces over current ones. Veth interfaces are
    /// treated as ethernet on both sides. Each desired interface not ignored
    /// is sanitized against the current interface of the same key and merged
    /// with it; the current interfaces left are merged as not desired. Then
    /// the type specific clean ups run and up priorities are fixed.
    pub fn new(desired: Interfaces, current: Interfaces) -> (r: Result<Self, NipartError>)
        ensures
            r matches Err(e) ==> e.kind == ErrorKind::InvalidArgument,
            r matches Ok(m) ==> order_names(m.insert_order@) == desired_names(
                ifaces_view(desired.kernel_ifaces@) + ifaces_view(desired.user_ifaces@),
            ),
    {
        let ghost dv = ifaces_view(desired.kernel_ifaces@) + ifaces_view(desired.user_ifaces@);
        let ghost k0 = desired.kernel_ifaces@;
        let mut desired = desired;
        let mut current = current;
        let mut insert_order: Vec<(String, InterfaceType)> = Vec::new();
        desired.unify_veth_and_ethernet();
        let ghost unified = ifaces_view(desired.kernel_ifaces@) + ifaces_view(desired.user_ifaces@);
        proof {
            assert forall|i: int| 0 <= i < unified.len() implies (#[trigger] unified[i]).base.name == dv[i].base.name
                && unified[i].base.state == dv[i].base.state by {
                if i < k0.len() {
                    assert(unified[i] == desired.kernel_ifaces@[i]@);
                    assert(dv[i] == k0[i]@);
                }
            }
        }
        current.unify_veth_and_ethernet();
        let mut kernel_ifaces: Vec<MergedInterface> = Vec::new();
        let mut user_ifaces: Vec<MergedInterface> = Vec::new();
        let des_all = desired.drain();
        proof {
            assert(ifaces_view(des_all@) == unified);
            lemma_desired_names_same(ifaces_view(des_all@), dv);
        }
        let mut i: usize = 0;
        while i < des_all.len()
            invariant
                i <= des_all.len(),
                order_names(insert_order@) == desired_names(ifaces_view(des_all@).take(i as int)),
                desired_names(ifaces_view(des_all@)) == desired_names(dv),
            decreases des_all.len() - i,
        {
            proof {
                assert(ifaces_view(des_all@).take(i + 1).drop_last() =~= ifaces_view(des_all@).take(i as int));
            }
            let mut des_iface = des_all[i].clone();
            i += 1;
            if des_iface.is_ignore() {
                continue;
            }
            let ghost before = insert_order@;
            insert_order.push((str_to_string(des_iface.name()), des_iface.iface_type().clone()));
            proof {
                assert(order_names(insert_order@) =~= order_names(before).push(des_iface@.base.name@));
            }
            let t = des_iface.iface_type().clone();
            let name = str_to_string(des_iface.name());
            let cur_iface = current.remove(name.as_str(), Some(&t));
            let cur_ref = match &cur_iface {
                Some(c) => Some(c),
                None => None,
            };
            des_iface.sanitize(cur_ref)?;
            let user = des_iface.is_userspace();
            let m = match MergedInterface::new(Some(des_iface), cur_iface) {
                Ok(m) => m,
                Err(e) => return Err(NipartError::new(ErrorKind::InvalidArgument, e.msg)),
            };
            if user {
                insert_merged(&mut user_ifaces, m, true);
            } else {
                insert_merged(&mut kernel_ifaces, m, false);
            }
        }
        proof {
            assert(ifaces_view(des_all@).take(des_all@.len() as int) =~= ifaces_view(des_all@));
        }
        let ghost names = order_names(insert_order@);
        let cur_all = current.drain();
        let mut j: usize = 0;
        while j < cur_all.len()
            invariant
                j <= cur_all.len(),
                order_names(insert_order@) == names,
            decreases cur_all.len() - j,
        {
            let cur_iface = cur_all[j].clone();
            j += 1;
            let user = cur_iface.is_userspace();
            let m = match MergedInterface::new(None, Some(cur_iface)) {
                Ok(m) => m,
                Err(e) => return Err(NipartError::new(ErrorKind::InvalidArgument, e.msg)),
            };
            if user {
                insert_merged(&mut user_ifaces, m, true);
            } else {
                insert_merged(&mut kernel_ifaces, m, false);
            }
        }
        let mut ret = MergedInterfaces { kernel_ifaces, user_ifaces, insert_order };
        ret.post_merge_sanitize()?;
        ret._set_up_priority()?;
        Ok(ret)
    }

    /// Verify the current interfaces against the desired ones: an interface
    /// desired absent (or virtual and down) must be gone if virtual; any
    /// other desired interface must exist when desired up, and then match
    /// the desired one.
    pub fn verify(&self, current: &Interfaces) -> (r: Result<(), NipartError>)
        ensures
            r matches Err(e) ==> e.kind == ErrorKind::VerificationError,
            r is Ok ==> forall|k: int|
                0 <= k < (mifaces_view(self.user_ifaces@) + mifaces_view(self.kernel_ifaces@)).len()
                    ==> #[trigger] verified_present(
                    (mifaces_view(self.user_ifaces@) + mifaces_view(self.kernel_ifaces@))[k],
                    ifaces_view(current.kernel_ifaces@),
                    ifaces_view(current.user_ifaces@),
                ),
    {
        let merged = self.iter();
        let ghost mv = mifaces_view(merged@);
        let ghost ik = ifaces_view(current.kernel_ifaces@);
        let ghost iu = ifaces_view(current.user_ifaces@);
        let mut current = current.clone();
        current.unify_veth_and_ethernet();
        let ghost ck = ifaces_view(current.kernel_ifaces@);
        proof {
            assert forall|x: int| 0 <= x < ck.len() implies (#[trigger] ck[x]).base.name == ik[x].base.name by {
                assert(ck[x] == current.kernel_ifaces@[x]@);
            }
        }
        let mut i: usize = 0;
        while i < merged.len()
            invariant
                i <= merged.len(),
                mv == mifaces_view(merged@),
                ck.len() == ik.len(),
                forall|x: int| 0 <= x < ck.len() ==> (#[trigger] ck[x]).base.name == ik[x].base.name,
                same_bases(ifaces_view(current.kernel_ifaces@), ck),
                same_bases(ifaces_view(current.user_ifaces@), iu),
                forall|j: int| 0 <= j < i ==> #[trigger] verified_present(mv[j], ik, iu),
            decreases merged.len() - i,
        {
            let des = &merged[i];
            let ghost dv = mv[i as int];
            i += 1;
            if !des.is_desired() {
                continue;
            }
            let mut iface = match &des.for_verify {
                Some(v) => v.clone(),
                None => continue,
            };
            iface.hide_secrets();
            let t = iface.iface_type().clone();
            if iface.is_absent() || (iface.is_virtual() && iface.is_down()) {
                if let Some(cur_iface) = current.get(iface.name(), Some(&t)) {
                    verify_desire_absent_but_found_in_current(&iface, cur_iface)?;
                }
            } else {
                let user = t.is_userspace();
                match current.position(iface.name(), Some(&t)) {
                    Some(p) => {
                        proof {
                            lemma_found_kept(
                                ifaces_view(current.kernel_ifaces@),
                                ifaces_view(current.user_ifaces@),
                                ck,
                                ik,
                                iu,
                                iface@,
                                p as int,
                            );
                        }
                        let mut cur_iface = if user {
                            current.user_ifaces[p].clone()
                        } else {
                            current.kernel_ifaces[p].clone()
                        };
                        iface.sanitize_before_verify(&mut cur_iface);
                        if iface.is_up() {
                            iface.verify(&cur_iface)?;
                        }
                        let ghost bk = ifaces_view(current.kernel_ifaces@);
                        let ghost bu = ifaces_view(current.user_ifaces@);
                        if user {
                            current.user_ifaces.set(p, cur_iface);
                            proof {
                                assert forall|x: int| 0 <= x < bu.len() implies (#[trigger] ifaces_view(
                                    current.user_ifaces@,
                                )[x]).base == bu[x].base by {
                                    if x != p {
                                        assert(ifaces_view(current.user_ifaces@)[x] == bu[x]);
                                    }
                                }
                            }
                        } else {
                            current.kernel_ifaces.set(p, cur_iface);
                            proof {
                                assert forall|x: int| 0 <= x < bk.len() implies (#[trigger] ifaces_view(
                                    current.kernel_ifaces@,
                                )[x]).base == bk[x].base by {
                                    if x != p {
                                        assert(ifaces_view(current.kernel_ifaces@)[x] == bk[x]);
                                    }
                                }
                            }
                        }
                    },
                    None => {
                        if iface.is_up() {
                            let mut msg = str_to_string("Failed to find desired interface ");
                            msg.append(iface.name());
                            return Err(NipartError::new(ErrorKind::VerificationError, msg));
                        }
                    },
                }
            }
        }
        proof {
            assert(mv =~= mifaces_view(self.user_ifaces@) + mifaces_view(self.kernel_ifaces@));
        }
        Ok(())
    }
}

/// Whether two lists of interfaces have the same bases, position by
/// position.
pub open spec fn same_bases(a: Seq<InterfaceView>, b: Seq<InterfaceView>) -> bool {
    a.len() == b.len() && forall|x: int| 0 <= x < a.len() ==> (#[trigger] a[x]).base == b[x].base
}

/// Whether a desired interface to verify as up is found among the current
/// interfaces: by name and type for a userspace type, by name otherwise.
/// Interfaces not desired, with nothing to verify, or not desired up pass.
pub open spec fn verified_present(m: MergedInterfaceView, kernel: Seq<InterfaceView>, user: Seq<InterfaceView>) -> bool {
    m.desired is Some && m.for_verify is Some && m.for_verify->0.base.state == InterfaceState::Up ==> {
        let v = m.for_verify->0;
        if type_is_userspace(v.base.iface_type) {
            crate::nmstate::interfaces::has_user(user, v.base.name@, v.base.iface_type)
        } else {
            crate::nmstate::interfaces::has_kernel(kernel, v.base.name@)
        }
    }
}

proof fn lemma_found_kept(
    cur_k: Seq<InterfaceView>,
    cur_u: Seq<InterfaceView>,
    ck: Seq<InterfaceView>,
    ik: Seq<InterfaceView>,
    iu: Seq<InterfaceView>,
    v: InterfaceView,
    p: int,
)
    requires
        same_bases(cur_k, ck),
        same_bases(cur_u, iu),
        ck.len() == ik.len(),
        forall|x: int| 0 <= x < ck.len() ==> (#[trigger] ck[x]).base.name == ik[x].base.name,
        type_is_userspace(v.base.iface_type) ==> crate::nmstate::interfaces::first_user(
            cur_u,
            v.base.name@,
            v.base.iface_type,
            p,
        ),
        !type_is_userspace(v.base.iface_type) ==> crate::nmstate::interfaces::first_kernel(cur_k, v.base.name@, p),
    ensures
        type_is_userspace(v.base.iface_type) ==> crate::nmstate::interfaces::has_user(
            iu,
            v.base.name@,
            v.base.iface_type,
        ),
        !type_is_userspace(v.base.iface_type) ==> crate::nmstate::interfaces::has_kernel(ik, v.base.name@),
{
    if type_is_userspace(v.base.iface_type) {
        assert(cur_u[p].base == iu[p].base);
        assert(crate::nmstate::interfaces::user_key(iu[p], v.base.name@, v.base.iface_type));
    } else {
        assert(cur_k[p].base == ck[p].base);
        assert(crate::nmstate::interfaces::kernel_key(ik[p], v.base.name@));
    }
}

} // verus!
