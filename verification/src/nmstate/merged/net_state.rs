use vstd::prelude::*;
use vstd::string::*;

use crate::error::{ErrorKind, NipartError};
use crate::nmstate::iface_type::InterfaceType;
use crate::nmstate::merged::iface::MergedInterface;
use crate::nmstate::merged::ifaces::MergedInterfaces;
use crate::nmstate::merged::route::MergedRoutes;
use crate::nmstate::net_state::NetworkState;
use crate::nmstate::route::{clone_routes, names_contain, RouteEntry};
use crate::nmstate::state_options::NipartstateApplyOption;
use crate::text::{clone_opt_str, opt_str_view, str_eq, str_to_string};

verus! {

/// A desired and a current network state merged.
#[non_exhaustive]
pub struct MergedNetworkState {
    pub version: Option<u32>,
    pub description: Option<String>,
    pub ifaces: MergedInterfaces,
    pub routes: MergedRoutes,
    pub option: NipartstateApplyOption,
}

impl MergedNetworkState {
    /// Merge a desired network state over the current one: interfaces first,
    /// then routes given the merged interfaces; version and description come
    /// from the desired state.
    pub fn new(desired: NetworkState, current: NetworkState, option: NipartstateApplyOption) -> (r: Result<
        Self,
        NipartError,
    >)
        ensures
            r matches Ok(m) ==> m.version == desired.version && opt_str_view(m.description) == opt_str_view(
                desired.description,
            ) && m.option == option,
            r matches Ok(m) ==> crate::nmstate::merged::ifaces::order_names(m.ifaces.insert_order@)
                == crate::nmstate::merged::ifaces::desired_names(
                crate::nmstate::interfaces::ifaces_view(desired.ifaces.kernel_ifaces@)
                    + crate::nmstate::interfaces::ifaces_view(desired.ifaces.user_ifaces@),
            ),
            r matches Ok(m) ==> !crate::nmstate::merged::route::routes_merge_refused(
                desired.routes@.config,
                m.ifaces.kernel_ifaces@,
            ),
            r matches Ok(m) ==> m.routes.current@ == current.routes@,
            r matches Err(e) ==> e.kind == ErrorKind::InvalidArgument || e.kind == ErrorKind::NoSupport
                || crate::nmstate::route::routes_first_error(
                crate::nmstate::merged::route::kept_routes(desired.routes@.config),
            ) == Some(e.kind),
    {
        let version = desired.version;
        let description = clone_opt_str(&desired.description);
        let merged_ifaces = match MergedInterfaces::new(desired.ifaces, current.ifaces) {
            Ok(m) => m,
            Err(e) => return Err(e),
        };
        let merged_routes = match MergedRoutes::new(desired.routes, current.routes, &merged_ifaces) {
            Ok(m) => m,
            Err(e) => return Err(e),
        };
        Ok(MergedNetworkState { version, description, ifaces: merged_ifaces, routes: merged_routes, option })
    }

    /// Verify the current state against the desired interfaces.
    pub fn verify(&self, current: &NetworkState) -> (r: Result<(), NipartError>)
        ensures
            r matches Err(e) ==> e.kind == ErrorKind::VerificationError,
            r is Ok ==> forall|k: int|
                0 <= k < (crate::nmstate::merged::ifaces::mifaces_view(self.ifaces.user_ifaces@)
                    + crate::nmstate::merged::ifaces::mifaces_view(self.ifaces.kernel_ifaces@)).len()
                    ==> #[trigger] crate::nmstate::merged::ifaces::verified_present(
                    (crate::nmstate::merged::ifaces::mifaces_view(self.ifaces.user_ifaces@)
                        + crate::nmstate::merged::ifaces::mifaces_view(self.ifaces.kernel_ifaces@))[k],
                    crate::nmstate::interfaces::ifaces_view(current.ifaces.kernel_ifaces@),
                    crate::nmstate::interfaces::ifaces_view(current.ifaces.user_ifaces@),
                ),
    {
        self.ifaces.verify(&current.ifaces)
    }

    /// The network state to apply: interfaces and routes to apply, with the
    /// desired version and description.
    pub fn gen_state_for_apply(&self) -> (r: NetworkState)
        ensures
            r.version == self.version,
            opt_str_view(r.description) == opt_str_view(self.description),
            r.routes@.running is None,
            r.routes@.config == Some(self.routes.changed_routes@),
            forall|k: int|
                0 <= k < self.ifaces.kernel_ifaces@.len() && (#[trigger] self.ifaces.kernel_ifaces@[k])@.for_apply is Some
                    ==> crate::nmstate::interfaces::all_names(r.ifaces).contains(
                    self.ifaces.kernel_ifaces@[k]@.for_apply->0.base.name@,
                ),
            forall|k: int|
                0 <= k < self.ifaces.user_ifaces@.len() && (#[trigger] self.ifaces.user_ifaces@[k])@.for_apply is Some
                    ==> crate::nmstate::interfaces::all_names(r.ifaces).contains(
                    self.ifaces.user_ifaces@[k]@.for_apply->0.base.name@,
                ),
            crate::nmstate::merged::ifaces::all_from_apply(
                crate::nmstate::interfaces::ifaces_view(r.ifaces.kernel_ifaces@),
                crate::nmstate::merged::ifaces::mifaces_view(self.ifaces.kernel_ifaces@),
                crate::nmstate::merged::ifaces::mifaces_view(self.ifaces.user_ifaces@),
            ),
            crate::nmstate::merged::ifaces::all_from_apply(
                crate::nmstate::interfaces::ifaces_view(r.ifaces.user_ifaces@),
                crate::nmstate::merged::ifaces::mifaces_view(self.ifaces.kernel_ifaces@),
                crate::nmstate::merged::ifaces::mifaces_view(self.ifaces.user_ifaces@),
            ),
    {
        NetworkState {
            ifaces: self.ifaces.gen_state_for_apply(),
            routes: self.routes.gen_state_for_apply(),
            version: self.version,
            description: clone_opt_str(&self.description),
        }
    }

    /// Hide the secrets of the merged interfaces.
    pub fn hide_secrets(&mut self)
        ensures
            final(self).version == old(self).version,
            final(self).description == old(self).description,
            final(self).ifaces.kernel_ifaces@.len() == old(self).ifaces.kernel_ifaces@.len(),
            final(self).ifaces.user_ifaces@.len() == old(self).ifaces.user_ifaces@.len(),
            forall|k: int|
                0 <= k < old(self).ifaces.kernel_ifaces@.len() ==> (#[trigger] final(self).ifaces.kernel_ifaces@[k])@
                    == crate::nmstate::merged::ifaces::merged_hidden(old(self).ifaces.kernel_ifaces@[k]@),
            forall|k: int|
                0 <= k < old(self).ifaces.user_ifaces@.len() ==> (#[trigger] final(self).ifaces.user_ifaces@[k])@
                    == crate::nmstate::merged::ifaces::merged_hidden(old(self).ifaces.user_ifaces@[k]@),
    {
        self.ifaces.hide_secrets()
    }

    /// Keep only the interfaces that can be brought up now: an interface to
    /// apply up whose controller or parent is not among the merged
    /// interfaces is dropped, along with its routes.
    pub fn remove_conditional_activation(&mut self)
        ensures
            final(self).version == old(self).version,
            final(self).ifaces.kernel_ifaces@.len() <= old(self).ifaces.kernel_ifaces@.len(),
            final(self).ifaces.user_ifaces@.len() <= old(self).ifaces.user_ifaces@.len(),
    {
        let all = self.ifaces.iter();
        let mut pending: Vec<(String, InterfaceType)> = Vec::new();
        let mut i: usize = 0;
        while i < all.len()
            invariant
                i <= all.len(),
            decreases all.len() - i,
        {
            let m = &all[i];
            i += 1;
            if m.for_apply.is_none() {
                continue;
            }
            if m.merged.is_up() && !self.can_bring_up(m) {
                pending.push((str_to_string(m.merged.name()), m.merged.iface_type().clone()));
            }
        }
        let mut j: usize = 0;
        while j < pending.len()
            invariant
                j <= pending.len(),
                self.version == old(self).version,
                self.ifaces.kernel_ifaces@.len() <= old(self).ifaces.kernel_ifaces@.len(),
                self.ifaces.user_ifaces@.len() <= old(self).ifaces.user_ifaces@.len(),
            decreases pending.len() - j,
        {
            let (iface_name, iface_type) = &pending[j];
            j += 1;
            match self.ifaces.position(iface_name.as_str(), iface_type) {
                Some(p) => {
                    if iface_type.is_userspace() {
                        self.ifaces.user_ifaces.remove(p);
                    } else {
                        remove_name(&mut self.routes.route_changed_ifaces, iface_name.as_str());
                        remove_routes_via(&mut self.routes.changed_routes, iface_name.as_str());
                        if let Some(cfg) = &self.routes.desired.config {
                            let mut c = clone_routes(cfg);
                            remove_routes_via(&mut c, iface_name.as_str());
                            self.routes.desired.config = Some(c);
                        }
                        self.ifaces.kernel_ifaces.remove(p);
                    }
                },
                None => {},
            }
        }
    }

    /// Whether the controller and the parent the interface names, if any,
    /// are among the merged interfaces.
    fn can_bring_up(&self, m: &MergedInterface) -> (r: bool) {
        if let Some(ctrl) = &m.merged.base_iface().controller {
            if ctrl.as_str().unicode_len() > 0 {
                let t = match &m.merged.base_iface().controller_type {
                    Some(t) => t.clone(),
                    None => InterfaceType::default(),
                };
                if self.ifaces.get_iface(ctrl.as_str(), &t).is_none() {
                    return false;
                }
            }
        }
        if let Some(parent) = m.merged.parent() {
            if self.ifaces.get_iface(parent, &InterfaceType::Ethernet).is_none() {
                return false;
            }
        }
        true
    }
}

fn remove_name(v: &mut Vec<String>, n: &str)
    ensures
        final(v)@.len() <= old(v)@.len(),
{
    let mut out: Vec<String> = Vec::new();
    let mut i: usize = 0;
    while i < v.len()
        invariant
            i <= v.len(),
            out@.len() <= i,
        decreases v.len() - i,
    {
        if !str_eq(v[i].as_str(), n) {
            out.push(v[i].clone());
        }
        i += 1;
    }
    *v = out;
}

fn remove_routes_via(v: &mut Vec<RouteEntry>, n: &str)
    ensures
        final(v)@.len() <= old(v)@.len(),
        forall|k: int|
            0 <= k < final(v)@.len() ==> opt_str_view((#[trigger] final(v)@[k]).next_hop_iface) != Some(n@),
{
    let mut out: Vec<RouteEntry> = Vec::new();
    let mut i: usize = 0;
    while i < v.len()
        invariant
            i <= v.len(),
            out@.len() <= i,
            forall|k: int| 0 <= k < out@.len() ==> opt_str_view((#[trigger] out@[k]).next_hop_iface) != Some(n@),
        decreases v.len() - i,
    {
        let via = match &v[i].next_hop_iface {
            Some(x) => str_eq(x.as_str(), n),
            None => false,
        };
        if !via {
            out.push(v[i].clone());
        }
        i += 1;
    }
    *v = out;
}

} // verus!
