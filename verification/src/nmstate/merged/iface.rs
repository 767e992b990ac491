use vstd::prelude::*;
use vstd::string::*;

use crate::error::{ErrorKind, NipartError};
use crate::nmstate::iface::{iface_hidden, section_for_type, IfaceSection, Interface, InterfaceView};
use crate::nmstate::iface_state::InterfaceState;
use crate::nmstate::iface_type::InterfaceType;
use crate::nmstate::ifaces::base::{bare_base, base_can_have_ip, BaseInterfaceView};
use crate::nmstate::ifaces::simple::LoopbackInterface;
use crate::text::{opt_str_view, str_to_string};

verus! {

/// An interface seen from the desired and the current state at once, with
/// the results of merging them: the merged interface, what to apply and what
/// to verify.
#[non_exhaustive]
pub struct MergedInterface {
    pub desired: Option<Interface>,
    pub current: Option<Interface>,
    pub merged: Interface,
    pub for_apply: Option<Interface>,
    pub for_verify: Option<Interface>,
}

/// Model of an optional interface.
pub open spec fn opt_iface_view(o: Option<Interface>) -> Option<InterfaceView> {
    match o {
        Some(i) => Some(i@),
        None => None,
    }
}

/// Model of [MergedInterface].
pub struct MergedInterfaceView {
    pub desired: Option<InterfaceView>,
    pub current: Option<InterfaceView>,
    pub merged: InterfaceView,
    pub for_apply: Option<InterfaceView>,
    pub for_verify: Option<InterfaceView>,
}

impl View for MergedInterface {
    type V = MergedInterfaceView;

    open spec fn view(&self) -> MergedInterfaceView {
        MergedInterfaceView {
            desired: opt_iface_view(self.desired),
            current: opt_iface_view(self.current),
            merged: self.merged@,
            for_apply: opt_iface_view(self.for_apply),
            for_verify: opt_iface_view(self.for_verify),
        }
    }
}

fn clone_opt_iface(o: &Option<Interface>) -> (r: Option<Interface>)
    ensures
        opt_iface_view(r) == opt_iface_view(*o),
{
    match o {
        Some(i) => Some(i.clone()),
        None => None,
    }
}

impl Clone for MergedInterface {
    fn clone(&self) -> (r: Self)
        ensures
            r@ == self@,
    {
        MergedInterface {
            desired: clone_opt_iface(&self.desired),
            current: clone_opt_iface(&self.current),
            merged: self.merged.clone(),
            for_apply: clone_opt_iface(&self.for_apply),
            for_verify: clone_opt_iface(&self.for_verify),
        }
    }
}

/// An optional interface with its secrets hidden.
pub open spec fn opt_hidden(o: Option<InterfaceView>) -> Option<InterfaceView> {
    match o {
        Some(v) => Some(iface_hidden(v)),
        None => None,
    }
}

/// The interface to apply when only the name and type are changed: a bare
/// interface of the current one's name and type.
pub open spec fn changed_marker(current: Option<InterfaceView>) -> Option<InterfaceView> {
    match current {
        Some(c) => Some(
            InterfaceView {
                base: bare_base(c.base.name, c.base.iface_type, InterfaceState::Up),
                section: section_for_type(c.base.iface_type),
            },
        ),
        None => None,
    }
}

/// An optional interface with its state replaced.
pub open spec fn with_state(o: Option<InterfaceView>, s: InterfaceState) -> Option<InterfaceView> {
    match o {
        Some(v) => Some(InterfaceView { base: BaseInterfaceView { state: s, ..v.base }, ..v }),
        None => None,
    }
}

fn set_state(o: &mut Option<Interface>, s: InterfaceState)
    ensures
        opt_iface_view(*final(o)) == with_state(opt_iface_view(*old(o)), s),
{
    if let Some(i) = o {
        i.base_iface_mut().state = s;
    }
}

impl MergedInterface {
    /// Merge a desired interface over the current one. The merged interface
    /// is the desired one merged over the current one, or whichever exists
    /// (the default interface when neither does); the interface to apply is
    /// the desired one carrying the current interface index; the interface
    /// to verify is the desired one.
    pub fn new(desired: Option<Interface>, current: Option<Interface>) -> (r: Result<Self, NipartError>)
        ensures
            r is Ok,
            r matches Ok(m) ==> {
                &&& m@.desired == opt_iface_view(desired)
                &&& m@.current == opt_iface_view(current)
                &&& m@.for_verify == opt_iface_view(desired)
                &&& match desired {
                    Some(d) => m@.for_apply == Some(
                        InterfaceView {
                            base: BaseInterfaceView {
                                iface_index: match current {
                                    Some(c) => c@.base.iface_index,
                                    None => None,
                                },
                                ..d@.base
                            },
                            ..d@
                        },
                    ),
                    None => m@.for_apply is None,
                }
                &&& match (desired, current) {
                    (Some(d), Some(c)) => m@.merged.base.name == d@.base.name,
                    (Some(d), None) => m@.merged == d@,
                    (None, Some(c)) => m@.merged == c@,
                    (None, None) => m@.merged.section is Unknown,
                }
            },
    {
        let merged = match (&desired, &current) {
            (Some(d), Some(c)) => c.merge(d)?,
            (Some(s), None) => s.clone(),
            (None, Some(s)) => s.clone(),
            (None, None) => Interface::default(),
        };
        let for_apply = match &desired {
            Some(d) => {
                let mut ret = d.clone();
                let cur_base = match &current {
                    Some(c) => Some(c.base_iface()),
                    None => None,
                };
                ret.base_iface_mut().include_extra_for_apply(cur_base);
                Some(ret)
            },
            None => None,
        };
        let for_verify = clone_opt_iface(&desired);
        Ok(MergedInterface { for_apply, for_verify, desired, current, merged })
    }

    /// Whether the interface is mentioned in the desired state.
    pub fn is_desired(&self) -> (r: bool)
        ensures
            r == (self.desired is Some),
    {
        self.desired.is_some()
    }

    /// Whether the interface is to be applied.
    pub fn is_changed(&self) -> (r: bool)
        ensures
            r == (self.for_apply is Some),
    {
        self.for_apply.is_some()
    }

    /// Hide the secrets of every form of the interface.
    pub fn hide_secrets(&mut self)
        ensures
            final(self)@ == (MergedInterfaceView {
                desired: opt_hidden(old(self)@.desired),
                current: opt_hidden(old(self)@.current),
                merged: iface_hidden(old(self)@.merged),
                for_apply: opt_hidden(old(self)@.for_apply),
                for_verify: opt_hidden(old(self)@.for_verify),
            }),
    {
        if let Some(i) = &mut self.desired {
            i.hide_secrets();
        }
        if let Some(i) = &mut self.current {
            i.hide_secrets();
        }
        self.merged.hide_secrets();
        if let Some(i) = &mut self.for_apply {
            i.hide_secrets();
        }
        if let Some(i) = &mut self.for_verify {
            i.hide_secrets();
        }
    }

    /// Mark the interface as to be applied: a bare interface of the current
    /// one's name and type (nothing when there is no current interface).
    pub fn mark_as_changed(&mut self)
        ensures
            final(self)@ == (MergedInterfaceView { for_apply: changed_marker(old(self)@.current), ..old(self)@ }),
    {
        self.for_apply = match &self.current {
            Some(i) => Some(i.clone_name_type_only()),
            None => None,
        };
    }

    /// Removing the loopback interface resets it to its default.
    pub fn post_merge_sanitize_loopback(&mut self)
        ensures
            old(self)@.merged.base.state == InterfaceState::Absent ==> final(self)@.for_apply is Some
                && final(self)@.for_verify is Some && final(self)@.for_apply->0.section is Loopback
                && final(self)@.for_verify->0.section is Loopback,
            old(self)@.merged.base.state != InterfaceState::Absent ==> final(self)@ == old(self)@,
    {
        if self.merged.is_absent() {
            self.for_apply = Some(Interface::Loopback(Box::new(LoopbackInterface::new_default())));
            self.for_verify = Some(Interface::Loopback(Box::new(LoopbackInterface::new_default())));
        }
    }
}

/// Whether the interface cannot live without a controller but is detached
/// from its current controller while its desired form is to be brought up.
pub open spec fn detached_but_up(m: MergedInterfaceView, ctrl_name: Seq<char>) -> bool {
    &&& m.merged.base.iface_type is OvsInterface
    &&& ctrl_name.len() == 0
    &&& m.current matches Some(c) && c.base.controller is Some
    &&& m.for_apply matches Some(a) && a.base.state == InterfaceState::Up
}

/// The interface to apply once a controller change is taken in: a bare one
/// when the interface was not desired (brought up with an up controller).
pub open spec fn apply_before_ctrl(m: MergedInterfaceView, ctrl_state: InterfaceState) -> Option<InterfaceView> {
    if m.desired is None {
        if ctrl_state == InterfaceState::Up {
            with_state(changed_marker(m.current), InterfaceState::Up)
        } else {
            changed_marker(m.current)
        }
    } else {
        m.for_apply
    }
}

/// The base with its controller set.
pub open spec fn with_ctrl(b: BaseInterfaceView, name: String, t: InterfaceType) -> BaseInterfaceView {
    BaseInterfaceView { controller: Some(name), controller_type: Some(t), ..b }
}

impl MergedInterface {
    /// Take a change of controller into the interface. An interface that
    /// cannot live without a controller and is detached from it cannot be
    /// brought up, and is otherwise marked absent; any other interface gets
    /// the controller in its merged and to-apply forms, and loses its IP
    /// settings when it can no longer hold them. An interface not desired is
    /// marked as changed first (and brought up with an up controller).
    pub fn apply_ctrller_change(
        &mut self,
        ctrl_name: String,
        ctrl_type: InterfaceType,
        ctrl_state: InterfaceState,
    ) -> (r: Result<(), NipartError>)
        ensures
            detached_but_up(old(self)@, ctrl_name@) ==> r is Err && final(self)@ == old(self)@,
            r matches Err(e) ==> (e.kind == ErrorKind::InvalidArgument <==> detached_but_up(old(self)@, ctrl_name@)),
            r matches Err(e) ==> (e.kind == ErrorKind::InvalidArgument || e.kind == ErrorKind::Bug),
            !detached_but_up(old(self)@, ctrl_name@) ==> (r is Err <==> apply_before_ctrl(old(self)@, ctrl_state) is None),
            r is Ok ==> {
                let a = apply_before_ctrl(old(self)@, ctrl_state)->0;
                let mstate = if old(self)@.desired is None && ctrl_state == InterfaceState::Up {
                    InterfaceState::Up
                } else {
                    old(self)@.merged.base.state
                };
                if old(self)@.merged.base.iface_type is OvsInterface && ctrl_name@.len() == 0 {
                    &&& final(self)@.merged == (InterfaceView {
                        base: BaseInterfaceView { state: InterfaceState::Absent, ..old(self)@.merged.base },
                        ..old(self)@.merged
                    })
                    &&& final(self)@.for_apply == with_state(Some(a), InterfaceState::Absent)
                    &&& final(self)@.for_verify == with_state(old(self)@.for_verify, InterfaceState::Absent)
                } else {
                    let mb = with_ctrl(
                        BaseInterfaceView { state: mstate, ..old(self)@.merged.base },
                        ctrl_name,
                        ctrl_type,
                    );
                    &&& final(self)@.for_apply == Some(
                        InterfaceView { base: with_ctrl(a.base, ctrl_name, ctrl_type), ..a },
                    )
                    &&& final(self)@.merged == (InterfaceView {
                        base: if base_can_have_ip(mb) {
                            mb
                        } else {
                            BaseInterfaceView { ipv4: None, ipv6: None, ..mb }
                        },
                        ..old(self)@.merged
                    })
                    &&& final(self)@.for_verify == old(self)@.for_verify
                }
            },
            final(self)@.desired == old(self)@.desired,
            final(self)@.current == old(self)@.current,
    {
        let need_ctrl = self.merged.base_iface().need_controller();
        let ctrl_empty = ctrl_name.as_str().unicode_len() == 0;
        if need_ctrl && ctrl_empty {
            let has_org_ctrl = match &self.current {
                Some(c) => c.base_iface().controller.is_some(),
                None => false,
            };
            if has_org_ctrl {
                let apply_up = match &self.for_apply {
                    Some(i) => i.is_up(),
                    None => false,
                };
                if apply_up {
                    let mut msg = str_to_string("Interface ");
                    msg.append(self.merged.name());
                    msg.append(
                        " cannot live without controller, but it is detached from original controller, cannot apply desired `state:up`",
                    );
                    return Err(NipartError::new(ErrorKind::InvalidArgument, msg));
                }
            }
        }
        if !self.is_desired() {
            self.mark_as_changed();
            if ctrl_state == InterfaceState::Up {
                self.merged.base_iface_mut().state = InterfaceState::Up;
                set_state(&mut self.for_apply, InterfaceState::Up);
            }
        }
        if self.for_apply.is_none() {
            return Err(
                NipartError::from_str_msg(
                    ErrorKind::Bug,
                    "Reached unreachable code: apply_ctrller_change() self.for_apply still None",
                ),
            );
        }
        if need_ctrl && ctrl_empty {
            self.merged.base_iface_mut().state = InterfaceState::Absent;
            set_state(&mut self.for_apply, InterfaceState::Absent);
            set_state(&mut self.for_verify, InterfaceState::Absent);
        } else {
            if let Some(apply_iface) = &mut self.for_apply {
                let b = apply_iface.base_iface_mut();
                b.controller = Some(ctrl_name.clone());
                b.controller_type = Some(ctrl_type.clone());
            }
            let mb = self.merged.base_iface_mut();
            mb.controller = Some(ctrl_name);
            mb.controller_type = Some(ctrl_type);
            if !self.merged.base_iface().can_have_ip() {
                let mb = self.merged.base_iface_mut();
                mb.ipv4 = None;
                mb.ipv6 = None;
            }
        }
        Ok(())
    }

    /// VLAN defaults after merging: `reorder_headers` defaults to true in the
    /// interface to apply unless the current VLAN has it false, and a VLAN
    /// base interface not desired is taken from the current VLAN in the
    /// interfaces to apply and to verify.
    pub fn post_merge_sanitize_vlan(&mut self)
        ensures
            final(self)@.desired == old(self)@.desired,
            final(self)@.current == old(self)@.current,
            final(self)@.merged == old(self)@.merged,
            match (old(self)@.for_apply, final(self)@.for_apply) {
                (Some(o), Some(n)) => n.base == o.base && match o.section {
                    IfaceSection::Vlan(Some(ov)) => match n.section {
                        IfaceSection::Vlan(Some(nv)) => {
                            let cur_false = old(self)@.current matches Some(c) && c.section matches IfaceSection::Vlan(
                                Some(cv),
                            ) && cv.reorder_headers == Some(false);
                            &&& nv.reorder_headers == (if ov.reorder_headers is None && !cur_false {
                                Some(true)
                            } else {
                                ov.reorder_headers
                            })
                            &&& vlan_rest_same(nv, ov)
                            &&& opt_str_view(nv.base_iface) == vlan_base_after(old(self)@, ov)
                        },
                        _ => false,
                    },
                    _ => n.section == o.section,
                },
                (None, None) => true,
                _ => false,
            },
            match (old(self)@.for_verify, final(self)@.for_verify) {
                (Some(o), Some(n)) => n.base == o.base && match o.section {
                    IfaceSection::Vlan(Some(ov)) => match n.section {
                        IfaceSection::Vlan(Some(nv)) => {
                            &&& nv.reorder_headers == ov.reorder_headers
                            &&& vlan_rest_same(nv, ov)
                            &&& opt_str_view(nv.base_iface) == vlan_base_after(old(self)@, ov)
                        },
                        _ => false,
                    },
                    _ => n.section == o.section,
                },
                (None, None) => true,
                _ => false,
            },
    {
        let cur_reorder_false = match &self.current {
            Some(Interface::Vlan(c)) => match &c.vlan {
                Some(v) => v.reorder_headers == Some(false),
                None => false,
            },
            _ => false,
        };
        if let Some(Interface::Vlan(apply_iface)) = &mut self.for_apply {
            if !cur_reorder_false {
                if let Some(vlan_conf) = &mut apply_iface.vlan {
                    if vlan_conf.reorder_headers.is_none() {
                        vlan_conf.reorder_headers = Some(true);
                    }
                }
            }
        }
        let cur_base = match &self.current {
            Some(Interface::Vlan(c)) => match &c.vlan {
                Some(v) => Some(crate::text::clone_opt_str(&v.base_iface)),
                None => Some(None),
            },
            _ => None,
        };
        if let Some(cb) = cur_base {
            let both = matches!(self.for_apply, Some(Interface::Vlan(_))) && matches!(
                self.for_verify,
                Some(Interface::Vlan(_))
            );
            if both {
                if let Some(Interface::Vlan(apply_iface)) = &mut self.for_apply {
                    if let Some(v) = &mut apply_iface.vlan {
                        if v.base_iface.is_none() {
                            v.base_iface = crate::text::clone_opt_str(&cb);
                        }
                    }
                }
                if let Some(Interface::Vlan(verify_iface)) = &mut self.for_verify {
                    if let Some(v) = &mut verify_iface.vlan {
                        if v.base_iface.is_none() {
                            v.base_iface = cb;
                        }
                    }
                }
            }
        }
    }
}

/// The VLAN base interface of the current interface, when it is a VLAN
/// (`Some(None)` for a VLAN without VLAN settings).
pub open spec fn vlan_cur_base(m: MergedInterfaceView) -> Option<Option<Seq<char>>> {
    match m.current {
        Some(c) => match c.section {
            IfaceSection::Vlan(Some(cv)) => Some(opt_str_view(cv.base_iface)),
            IfaceSection::Vlan(None) => Some(None),
            _ => None,
        },
        None => None,
    }
}

/// The VLAN base interface after the VLAN post-merge: a missing one is taken
/// from the current VLAN when both the interface to apply and the one to
/// verify are VLANs.
pub open spec fn vlan_base_after(m: MergedInterfaceView, ov: crate::nmstate::ifaces::vlan::VlanConfigView) -> Option<
    Seq<char>,
> {
    if ov.base_iface is None && vlan_cur_base(m) is Some && (m.for_apply matches Some(a) && a.section is Vlan) && (
    m.for_verify matches Some(v) && v.section is Vlan) {
        vlan_cur_base(m)->0
    } else {
        opt_str_view(ov.base_iface)
    }
}

/// Whether two VLAN settings agree but for the base interface and header
/// reordering.
pub open spec fn vlan_rest_same(
    n: crate::nmstate::ifaces::vlan::VlanConfigView,
    o: crate::nmstate::ifaces::vlan::VlanConfigView,
) -> bool {
    &&& n.id == o.id
    &&& n.protocol == o.protocol
    &&& n.registration_protocol == o.registration_protocol
    &&& n.loose_binding == o.loose_binding
    &&& n.bridge_binding == o.bridge_binding
    &&& n.ingress_qos_map == o.ingress_qos_map
    &&& n.egress_qos_map == o.egress_qos_map
}

} // verus!
