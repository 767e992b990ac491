use vstd::prelude::*;
use vstd::string::*;

use crate::error::NipartError;
use crate::nmstate::iface::{IfaceSection, Interface, InterfaceView};
use crate::nmstate::iface_state::InterfaceState;
use crate::nmstate::iface_type::{same_type, type_is_userspace, InterfaceType};
use crate::text::str_eq;

verus! {

/// The interfaces of a network state: kernel interfaces keyed by name,
/// userspace-only interfaces keyed by name and type, and the order in which
/// they were added.
#[non_exhaustive]
pub struct Interfaces {
    pub kernel_ifaces: Vec<Interface>,
    pub user_ifaces: Vec<Interface>,
    pub insert_order: Vec<(String, InterfaceType)>,
}

/// Model of a list of interfaces.
pub open spec fn ifaces_view(s: Seq<Interface>) -> Seq<InterfaceView> {
    s.map_values(|i: Interface| i@)
}

/// Whether a kernel interface has the given name.
pub open spec fn kernel_key(v: InterfaceView, name: Seq<char>) -> bool {
    v.base.name@ == name
}

/// Whether a userspace interface has the given name and type.
pub open spec fn user_key(v: InterfaceView, name: Seq<char>, t: InterfaceType) -> bool {
    v.base.name@ == name && same_type(v.base.iface_type, t)
}

/// Whether `i` is the first position of the list holding an interface with
/// the given name.
pub open spec fn first_kernel(s: Seq<InterfaceView>, name: Seq<char>, i: int) -> bool {
    0 <= i < s.len() && kernel_key(s[i], name) && forall|j: int| 0 <= j < i ==> !kernel_key(#[trigger] s[j], name)
}

/// Whether `i` is the first position of the list holding an interface with
/// the given name and type.
pub open spec fn first_user(s: Seq<InterfaceView>, name: Seq<char>, t: InterfaceType, i: int) -> bool {
    0 <= i < s.len() && user_key(s[i], name, t) && forall|j: int| 0 <= j < i ==> !user_key(#[trigger] s[j], name, t)
}

/// Whether some interface of the list has the given name.
pub open spec fn has_kernel(s: Seq<InterfaceView>, name: Seq<char>) -> bool {
    exists|i: int| 0 <= i < s.len() && #[trigger] kernel_key(s[i], name)
}

/// Whether some interface of the list has the given name and type.
pub open spec fn has_user(s: Seq<InterfaceView>, name: Seq<char>, t: InterfaceType) -> bool {
    exists|i: int| 0 <= i < s.len() && #[trigger] user_key(s[i], name, t)
}

/// Whether a lookup by name and optional type goes to the userspace list.
pub open spec fn lookup_is_user(t: Option<InterfaceType>) -> bool {
    t matches Some(x) && type_is_userspace(x)
}

/// The names of all interfaces, kernel ones first.
pub open spec fn all_names(x: Interfaces) -> Seq<Seq<char>> {
    iface_names(ifaces_view(x.kernel_ifaces@)) + iface_names(ifaces_view(x.user_ifaces@))
}

/// The names of a list of interfaces.
pub open spec fn iface_names(s: Seq<InterfaceView>) -> Seq<Seq<char>> {
    s.map_values(|v: InterfaceView| v.base.name@)
}

fn clone_ifaces(v: &Vec<Interface>) -> (r: Vec<Interface>)
    ensures
        ifaces_view(r@) == ifaces_view(v@),
{
    let mut out: Vec<Interface> = Vec::new();
    let mut i: usize = 0;
    while i < v.len()
        invariant
            i <= v.len(),
            out.len() == i,
            forall|k: int| 0 <= k < i ==> (#[trigger] out@[k])@ == v@[k]@,
        decreases v.len() - i,
    {
        out.push(v[i].clone());
        i += 1;
    }
    proof {
        assert(ifaces_view(out@) =~= ifaces_view(v@));
    }
    out
}

fn clone_order(v: &Vec<(String, InterfaceType)>) -> (r: Vec<(String, InterfaceType)>)
    ensures
        r@ == v@,
{
    let mut out: Vec<(String, InterfaceType)> = Vec::new();
    let mut i: usize = 0;
    while i < v.len()
        invariant
            i <= v.len(),
            out@ == v@.subrange(0, i as int),
        decreases v.len() - i,
    {
        let (n, t) = &v[i];
        out.push((n.clone(), t.clone()));
        i += 1;
    }
    proof {
        assert(out@ =~= v@);
    }
    out
}

impl Clone for Interfaces {
    fn clone(&self) -> (r: Self)
        ensures
            ifaces_view(r.kernel_ifaces@) == ifaces_view(self.kernel_ifaces@),
            ifaces_view(r.user_ifaces@) == ifaces_view(self.user_ifaces@),
            r.insert_order@ == self.insert_order@,
    {
        Interfaces {
            kernel_ifaces: clone_ifaces(&self.kernel_ifaces),
            user_ifaces: clone_ifaces(&self.user_ifaces),
            insert_order: clone_order(&self.insert_order),
        }
    }
}

impl Default for Interfaces {
    fn default() -> (r: Self)
        ensures
            r.kernel_ifaces@.len() == 0,
            r.user_ifaces@.len() == 0,
            r.insert_order@.len() == 0,
    {
        Interfaces { kernel_ifaces: Vec::new(), user_ifaces: Vec::new(), insert_order: Vec::new() }
    }
}

/// Position of the first interface with the given name.
fn find_kernel_in(s: &Vec<Interface>, name: &str) -> (r: Option<usize>)
    ensures
        match r {
            Some(i) => first_kernel(ifaces_view(s@), name@, i as int),
            None => !has_kernel(ifaces_view(s@), name@),
        },
{
    let mut i: usize = 0;
    while i < s.len()
        invariant
            i <= s.len(),
            forall|j: int| 0 <= j < i ==> !kernel_key(#[trigger] ifaces_view(s@)[j], name@),
        decreases s.len() - i,
    {
        if str_eq(s[i].name(), name) {
            return Some(i);
        }
        i += 1;
    }
    None
}

/// Position of the first interface with the given name and type.
fn find_user_in(s: &Vec<Interface>, name: &str, t: &InterfaceType) -> (r: Option<usize>)
    ensures
        match r {
            Some(i) => first_user(ifaces_view(s@), name@, *t, i as int),
            None => !has_user(ifaces_view(s@), name@, *t),
        },
{
    let mut i: usize = 0;
    while i < s.len()
        invariant
            i <= s.len(),
            forall|j: int| 0 <= j < i ==> !user_key(#[trigger] ifaces_view(s@)[j], name@, *t),
        decreases s.len() - i,
    {
        if str_eq(s[i].name(), name) && s[i].iface_type().same_as(t) {
            return Some(i);
        }
        i += 1;
    }
    None
}

impl Interfaces {
    /// No interfaces.
    pub fn new() -> (r: Self)
        ensures
            r.kernel_ifaces@.len() == 0,
            r.user_ifaces@.len() == 0,
            r.insert_order@.len() == 0,
    {
        Self::default()
    }

    /// Whether there is no interface at all.
    pub fn is_empty(&self) -> (r: bool)
        ensures
            r == (self.kernel_ifaces@.len() == 0 && self.user_ifaces@.len() == 0),
    {
        self.kernel_ifaces.len() == 0 && self.user_ifaces.len() == 0
    }

    /// Add an interface, replacing one with the same key; the key is the name
    /// for a kernel interface, the name and type for a userspace one.
    pub fn push(&mut self, iface: Interface)
        ensures
            final(self).insert_order@ == old(self).insert_order@.push((iface@.base.name, iface@.base.iface_type)),
            all_names(*final(self)).contains(iface@.base.name@),
            forall|n: Seq<char>| all_names(*old(self)).contains(n) ==> #[trigger] all_names(*final(self)).contains(n),
            type_is_userspace(iface@.base.iface_type) ==> {
                &&& ifaces_view(final(self).kernel_ifaces@) == ifaces_view(old(self).kernel_ifaces@)
                &&& if has_user(ifaces_view(old(self).user_ifaces@), iface@.base.name@, iface@.base.iface_type) {
                    exists|i: int|
                        first_user(ifaces_view(old(self).user_ifaces@), iface@.base.name@, iface@.base.iface_type, i)
                            && ifaces_view(final(self).user_ifaces@) == ifaces_view(old(self).user_ifaces@).update(
                            i,
                            iface@,
                        )
                } else {
                    ifaces_view(final(self).user_ifaces@) == ifaces_view(old(self).user_ifaces@).push(iface@)
                }
            },
            !type_is_userspace(iface@.base.iface_type) ==> {
                &&& ifaces_view(final(self).user_ifaces@) == ifaces_view(old(self).user_ifaces@)
                &&& if has_kernel(ifaces_view(old(self).kernel_ifaces@), iface@.base.name@) {
                    exists|i: int|
                        first_kernel(ifaces_view(old(self).kernel_ifaces@), iface@.base.name@, i) && ifaces_view(
                            final(self).kernel_ifaces@,
                        ) == ifaces_view(old(self).kernel_ifaces@).update(i, iface@)
                } else {
                    ifaces_view(final(self).kernel_ifaces@) == ifaces_view(old(self).kernel_ifaces@).push(iface@)
                }
            },
    {
        let name = iface.base_iface().name.clone();
        let t = iface.iface_type().clone();
        self.insert_order.push((name, t));
        let ghost ok = ifaces_view(self.kernel_ifaces@);
        let ghost ou = ifaces_view(self.user_ifaces@);
        let ghost iv = iface@;
        if iface.is_userspace() {
            match find_user_in(&self.user_ifaces, iface.name(), iface.iface_type()) {
                Some(i) => {
                    let ghost before = self.user_ifaces@;
                    self.user_ifaces.set(i, iface);
                    proof {
                        assert(ifaces_view(self.user_ifaces@) =~= ifaces_view(before).update(i as int, iv));
                        assert(iface_names(ifaces_view(self.user_ifaces@)) =~= iface_names(ou));
                        assert(iface_names(ou)[i as int] == iv.base.name@);
                        lemma_names_contains_right(
                            iface_names(ifaces_view(self.kernel_ifaces@)),
                            iface_names(ou),
                            i as int,
                        );
                    }
                },
                None => {
                    let ghost before = self.user_ifaces@;
                    self.user_ifaces.push(iface);
                    proof {
                        assert(ifaces_view(self.user_ifaces@) =~= ifaces_view(before).push(iv));
                        assert(iface_names(ifaces_view(self.user_ifaces@)) =~= iface_names(ou).push(iv.base.name@));
                        lemma_names_push_right(iface_names(ok), iface_names(ou), iv.base.name@);
                    }
                },
            }
        } else {
            match find_kernel_in(&self.kernel_ifaces, iface.name()) {
                Some(i) => {
                    let ghost before = self.kernel_ifaces@;
                    self.kernel_ifaces.set(i, iface);
                    proof {
                        assert(ifaces_view(self.kernel_ifaces@) =~= ifaces_view(before).update(i as int, iv));
                        assert(iface_names(ifaces_view(self.kernel_ifaces@)) =~= iface_names(ok));
                        assert(iface_names(ok)[i as int] == iv.base.name@);
                        assert((iface_names(ok) + iface_names(ou))[i as int] == iv.base.name@);
                    }
                },
                None => {
                    let ghost before = self.kernel_ifaces@;
                    self.kernel_ifaces.push(iface);
                    proof {
                        assert(ifaces_view(self.kernel_ifaces@) =~= ifaces_view(before).push(iv));
                        assert(iface_names(ifaces_view(self.kernel_ifaces@)) =~= iface_names(ok).push(iv.base.name@));
                        lemma_names_push_left(iface_names(ok), iface_names(ou), iv.base.name@);
                    }
                },
            }
        }
    }

    /// Position of the interface to look up: in the userspace list when the
    /// type given is userspace-only, else in the kernel list by name.
    pub fn position(&self, name: &str, iface_type: Option<&InterfaceType>) -> (r: Option<usize>)
        ensures
            lookup_is_user(
                match iface_type {
                    Some(t) => Some(*t),
                    None => None,
                },
            ) ==> match r {
                Some(i) => first_user(ifaces_view(self.user_ifaces@), name@, *iface_type->0, i as int),
                None => !has_user(ifaces_view(self.user_ifaces@), name@, *iface_type->0),
            },
            !lookup_is_user(
                match iface_type {
                    Some(t) => Some(*t),
                    None => None,
                },
            ) ==> match r {
                Some(i) => first_kernel(ifaces_view(self.kernel_ifaces@), name@, i as int),
                None => !has_kernel(ifaces_view(self.kernel_ifaces@), name@),
            },
    {
        match iface_type {
            Some(t) => {
                if t.is_userspace() {
                    find_user_in(&self.user_ifaces, name, t)
                } else {
                    find_kernel_in(&self.kernel_ifaces, name)
                }
            },
            None => find_kernel_in(&self.kernel_ifaces, name),
        }
    }

    /// The interface with the given name (and, for a userspace type, type).
    pub fn get(&self, name: &str, iface_type: Option<&InterfaceType>) -> (r: Option<&Interface>)
        ensures
            lookup_is_user(
                match iface_type {
                    Some(t) => Some(*t),
                    None => None,
                },
            ) ==> match r {
                Some(x) => exists|i: int|
                    first_user(ifaces_view(self.user_ifaces@), name@, *iface_type->0, i) && x@ == ifaces_view(
                        self.user_ifaces@,
                    )[i],
                None => !has_user(ifaces_view(self.user_ifaces@), name@, *iface_type->0),
            },
            !lookup_is_user(
                match iface_type {
                    Some(t) => Some(*t),
                    None => None,
                },
            ) ==> match r {
                Some(x) => exists|i: int|
                    first_kernel(ifaces_view(self.kernel_ifaces@), name@, i) && x@ == ifaces_view(
                        self.kernel_ifaces@,
                    )[i],
                None => !has_kernel(ifaces_view(self.kernel_ifaces@), name@),
            },
    {
        let user = match iface_type {
            Some(t) => t.is_userspace(),
            None => false,
        };
        match self.position(name, iface_type) {
            Some(i) => {
                if user {
                    Some(&self.user_ifaces[i])
                } else {
                    Some(&self.kernel_ifaces[i])
                }
            },
            None => None,
        }
    }

    /// Remove and return the interface with the given name (and, for a
    /// userspace type, type).
    pub fn remove(&mut self, name: &str, iface_type: Option<&InterfaceType>) -> (r: Option<Interface>)
        ensures
            final(self).insert_order@ == old(self).insert_order@,
            lookup_is_user(
                match iface_type {
                    Some(t) => Some(*t),
                    None => None,
                },
            ) ==> ifaces_view(final(self).kernel_ifaces@) == ifaces_view(old(self).kernel_ifaces@) && match r {
                Some(x) => exists|i: int|
                    first_user(ifaces_view(old(self).user_ifaces@), name@, *iface_type->0, i) && x@ == ifaces_view(
                        old(self).user_ifaces@,
                    )[i] && ifaces_view(final(self).user_ifaces@) == ifaces_view(old(self).user_ifaces@).remove(i),
                None => !has_user(ifaces_view(old(self).user_ifaces@), name@, *iface_type->0) && ifaces_view(
                    final(self).user_ifaces@,
                ) == ifaces_view(old(self).user_ifaces@),
            },
            !lookup_is_user(
                match iface_type {
                    Some(t) => Some(*t),
                    None => None,
                },
            ) ==> ifaces_view(final(self).user_ifaces@) == ifaces_view(old(self).user_ifaces@) && match r {
                Some(x) => exists|i: int|
                    first_kernel(ifaces_view(old(self).kernel_ifaces@), name@, i) && x@ == ifaces_view(
                        old(self).kernel_ifaces@,
                    )[i] && ifaces_view(final(self).kernel_ifaces@) == ifaces_view(old(self).kernel_ifaces@).remove(
                        i,
                    ),
                None => !has_kernel(ifaces_view(old(self).kernel_ifaces@), name@) && ifaces_view(
                    final(self).kernel_ifaces@,
                ) == ifaces_view(old(self).kernel_ifaces@),
            },
    {
        let user = match iface_type {
            Some(t) => t.is_userspace(),
            None => false,
        };
        match self.position(name, iface_type) {
            Some(i) => {
                if user {
                    let ghost before = self.user_ifaces@;
                    let x = self.user_ifaces.remove(i);
                    proof {
                        assert(ifaces_view(self.user_ifaces@) =~= ifaces_view(before).remove(i as int));
                    }
                    Some(x)
                } else {
                    let ghost before = self.kernel_ifaces@;
                    let x = self.kernel_ifaces.remove(i);
                    proof {
                        assert(ifaces_view(self.kernel_ifaces@) =~= ifaces_view(before).remove(i as int));
                    }
                    Some(x)
                }
            },
            None => None,
        }
    }

    /// Take all interfaces out, kernel ones first; nothing is left.
    pub fn drain(&mut self) -> (r: Vec<Interface>)
        ensures
            ifaces_view(r@) == ifaces_view(old(self).kernel_ifaces@) + ifaces_view(old(self).user_ifaces@),
            final(self).kernel_ifaces@.len() == 0,
            final(self).user_ifaces@.len() == 0,
            final(self).insert_order@.len() == 0,
    {
        let mut r: Vec<Interface> = Vec::new();
        let ghost k = self.kernel_ifaces@;
        let ghost u = self.user_ifaces@;
        r.append(&mut self.kernel_ifaces);
        r.append(&mut self.user_ifaces);
        self.insert_order = Vec::new();
        proof {
            assert(r@ =~= k + u);
            assert(ifaces_view(r@) =~= ifaces_view(k) + ifaces_view(u));
        }
        r
    }

    /// Copies of all interfaces, kernel ones first.
    pub fn to_vec(&self) -> (r: Vec<Interface>)
        ensures
            ifaces_view(r@) == ifaces_view(self.kernel_ifaces@) + ifaces_view(self.user_ifaces@),
    {
        let mut r = clone_ifaces(&self.kernel_ifaces);
        let mut u = clone_ifaces(&self.user_ifaces);
        let ghost k = r@;
        let ghost uu = u@;
        r.append(&mut u);
        proof {
            assert(r@ =~= k + uu);
            assert(ifaces_view(r@) =~= ifaces_view(k) + ifaces_view(uu));
        }
        r
    }

    /// Hide the secrets of every interface.
    pub fn hide_secrets(&mut self)
        ensures
            ifaces_view(final(self).kernel_ifaces@) == ifaces_view(old(self).kernel_ifaces@).map_values(
                |v: InterfaceView| crate::nmstate::iface::iface_hidden(v),
            ),
            ifaces_view(final(self).user_ifaces@) == ifaces_view(old(self).user_ifaces@).map_values(
                |v: InterfaceView| crate::nmstate::iface::iface_hidden(v),
            ),
            final(self).insert_order@ == old(self).insert_order@,
    {
        hide_all(&mut self.kernel_ifaces);
        hide_all(&mut self.user_ifaces);
    }

    /// Kernel interfaces of type veth are treated as ethernet.
    pub fn unify_veth_and_ethernet(&mut self)
        ensures
            ifaces_view(final(self).user_ifaces@) == ifaces_view(old(self).user_ifaces@),
            final(self).insert_order@ == old(self).insert_order@,
            final(self).kernel_ifaces@.len() == old(self).kernel_ifaces@.len(),
            forall|i: int|
                0 <= i < old(self).kernel_ifaces@.len() ==> (#[trigger] final(self).kernel_ifaces@[i])@ == (
                InterfaceView {
                    base: crate::nmstate::ifaces::base::BaseInterfaceView {
                        iface_type: if old(self).kernel_ifaces@[i]@.base.iface_type is Veth {
                            InterfaceType::Ethernet
                        } else {
                            old(self).kernel_ifaces@[i]@.base.iface_type
                        },
                        ..old(self).kernel_ifaces@[i]@.base
                    },
                    ..old(self).kernel_ifaces@[i]@
                }),
    {
        let ghost orig = self.kernel_ifaces@;
        let mut i: usize = 0;
        while i < self.kernel_ifaces.len()
            invariant
                i <= self.kernel_ifaces.len(),
                self.kernel_ifaces@.len() == orig.len(),
                ifaces_view(self.user_ifaces@) == ifaces_view(old(self).user_ifaces@),
                self.insert_order@ == old(self).insert_order@,
                orig == old(self).kernel_ifaces@,
                forall|k: int| i <= k < orig.len() ==> self.kernel_ifaces@[k] == orig[k],
                forall|k: int|
                    0 <= k < i ==> (#[trigger] self.kernel_ifaces@[k])@ == (InterfaceView {
                        base: crate::nmstate::ifaces::base::BaseInterfaceView {
                            iface_type: if orig[k]@.base.iface_type is Veth {
                                InterfaceType::Ethernet
                            } else {
                                orig[k]@.base.iface_type
                            },
                            ..orig[k]@.base
                        },
                        ..orig[k]@
                    }),
            decreases orig.len() - i,
        {
            if matches!(self.kernel_ifaces[i].iface_type(), InterfaceType::Veth) {
                let mut x = self.kernel_ifaces[i].clone();
                x.base_iface_mut().iface_type = InterfaceType::Ethernet;
                self.kernel_ifaces.set(i, x);
            }
            i += 1;
        }
    }
}

fn hide_all(v: &mut Vec<Interface>)
    ensures
        ifaces_view(final(v)@) == ifaces_view(old(v)@).map_values(
            |x: InterfaceView| crate::nmstate::iface::iface_hidden(x),
        ),
{
    let ghost orig = v@;
    let mut i: usize = 0;
    while i < v.len()
        invariant
            i <= v.len(),
            v@.len() == orig.len(),
            forall|k: int| i <= k < orig.len() ==> v@[k] == orig[k],
            forall|k: int| 0 <= k < i ==> (#[trigger] v@[k])@ == crate::nmstate::iface::iface_hidden(orig[k]@),
        decreases orig.len() - i,
    {
        let mut x = v[i].clone();
        x.hide_secrets();
        v.set(i, x);
        i += 1;
    }
    proof {
        assert(ifaces_view(v@) =~= ifaces_view(orig).map_values(
            |x: InterfaceView| crate::nmstate::iface::iface_hidden(x),
        ));
    }
}

proof fn lemma_names_contains_right(a: Seq<Seq<char>>, b: Seq<Seq<char>>, i: int)
    requires
        0 <= i < b.len(),
    ensures
        (a + b).contains(b[i]),
{
    assert((a + b)[a.len() + i] == b[i]);
}

proof fn lemma_names_push_right(a: Seq<Seq<char>>, b: Seq<Seq<char>>, x: Seq<char>)
    ensures
        (a + b.push(x)).contains(x),
        forall|n: Seq<char>| (a + b).contains(n) ==> #[trigger] (a + b.push(x)).contains(n),
{
    assert((a + b.push(x))[(a.len() + b.len()) as int] == x);
    assert forall|n: Seq<char>| (a + b).contains(n) implies #[trigger] (a + b.push(x)).contains(n) by {
        let k = choose|k: int| 0 <= k < (a + b).len() && (a + b)[k] == n;
        assert((a + b.push(x))[k] == n);
    }
}

proof fn lemma_names_push_left(a: Seq<Seq<char>>, b: Seq<Seq<char>>, x: Seq<char>)
    ensures
        (a.push(x) + b).contains(x),
        forall|n: Seq<char>| (a + b).contains(n) ==> #[trigger] (a.push(x) + b).contains(n),
{
    assert((a.push(x) + b)[a.len() as int] == x);
    assert forall|n: Seq<char>| (a + b).contains(n) implies #[trigger] (a.push(x) + b).contains(n) by {
        let k = choose|k: int| 0 <= k < (a + b).len() && (a + b)[k] == n;
        if k < a.len() {
            assert((a.push(x) + b)[k] == n);
        } else {
            assert((a.push(x) + b)[k + 1] == n);
        }
    }
}

/// Whether two interfaces differ at most in their state.
pub open spec fn same_but_state(a: InterfaceView, b: InterfaceView) -> bool {
    a == (InterfaceView { base: crate::nmstate::ifaces::base::BaseInterfaceView { state: a.base.state, ..b.base }, ..b })
}

/// Whether two interface lists differ at most in the states of their
/// interfaces.
pub open spec fn same_but_states(a: Seq<InterfaceView>, b: Seq<InterfaceView>) -> bool {
    a.len() == b.len() && forall|i: int| 0 <= i < a.len() ==> #[trigger] same_but_state(a[i], b[i])
}

/// The veth peer named by an ethernet interface section, if any.
pub open spec fn veth_peer_of(v: InterfaceView) -> Option<Seq<char>> {
    match v.section {
        IfaceSection::Ethernet(_, Some(veth)) => Some(veth.peer@),
        _ => None,
    }
}

fn veth_peer(i: &Interface) -> (r: Option<&str>)
    ensures
        match r {
            Some(p) => veth_peer_of(i@) == Some(p@),
            None => veth_peer_of(i@) is None,
        },
{
    match i {
        Interface::Ethernet(e) => match &e.veth {
            Some(v) => Some(v.peer.as_str()),
            None => None,
        },
        _ => None,
    }
}

fn set_state_at(v: &mut Vec<Interface>, i: usize, state: InterfaceState)
    requires
        i < old(v)@.len(),
    ensures
        same_but_states(ifaces_view(final(v)@), ifaces_view(old(v)@)),
        final(v)@[i as int]@.base.state == state,
        forall|k: int| 0 <= k < old(v)@.len() && k != i ==> final(v)@[k] == old(v)@[k],
{
    let ghost before = v@;
    let mut x = v[i].clone();
    x.base_iface_mut().state = state;
    v.set(i, x);
    proof {
        assert forall|k: int| 0 <= k < v@.len() implies #[trigger] same_but_state(
            ifaces_view(v@)[k],
            ifaces_view(before)[k],
        ) by {
            if k != i {
                assert(v@[k] == before[k]);
            }
        }
    }
}

/// The veth peer whose state the new interface `n` sets, against the kernel
/// interfaces `old`: when `n` is an ethernet interface and the first one of
/// its name in `old` is one too, the peer `n` names, else the peer that old
/// one names.
pub open spec fn synced_peer(old: Seq<InterfaceView>, n: InterfaceView) -> Option<Seq<char>> {
    if n.section is Ethernet && has_kernel(old, n.base.name@) {
        let i = choose|i: int| first_kernel(old, n.base.name@, i);
        if old[i].section is Ethernet {
            if veth_peer_of(n) is Some {
                veth_peer_of(n)
            } else {
                veth_peer_of(old[i])
            }
        } else {
            None
        }
    } else {
        None
    }
}

/// Every new interface that sets the state of the peer `p` sets it to `st`.
pub open spec fn peer_state_agreed(old: Seq<InterfaceView>, new: Seq<InterfaceView>, p: Seq<char>, st: InterfaceState) -> bool {
    forall|j: int| 0 <= j < new.len() && #[trigger] synced_peer(old, new[j]) == Some(p) ==> new[j].base.state == st
}

proof fn lemma_first_kernel_unique(s: Seq<InterfaceView>, n: Seq<char>, i: int, j: int)
    requires
        first_kernel(s, n, i),
        first_kernel(s, n, j),
    ensures
        i == j,
{
    if i < j {
        assert(kernel_key(s[i], n));
    } else if j < i {
        assert(kernel_key(s[j], n));
    }
}

proof fn lemma_first_kernel_same_names(a: Seq<InterfaceView>, b: Seq<InterfaceView>, n: Seq<char>, x: int)
    requires
        same_but_states(a, b),
    ensures
        first_kernel(a, n, x) <==> first_kernel(b, n, x),
        has_kernel(a, n) <==> has_kernel(b, n),
{
    assert forall|j: int| 0 <= j < a.len() implies (#[trigger] kernel_key(a[j], n)) == kernel_key(b[j], n) by {
        assert(same_but_state(a[j], b[j]));
    }
    if has_kernel(a, n) {
        let w = choose|w: int| 0 <= w < a.len() && #[trigger] kernel_key(a[w], n);
        assert(kernel_key(b[w], n));
    }
    if has_kernel(b, n) {
        let w = choose|w: int| 0 <= w < b.len() && #[trigger] kernel_key(b[w], n);
        assert(kernel_key(a[w], n));
    }
    if first_kernel(b, n, x) {
        assert forall|j: int| 0 <= j < x implies !kernel_key(#[trigger] a[j], n) by {
            assert(!kernel_key(b[j], n));
        }
    }
    if first_kernel(a, n, x) {
        assert forall|j: int| 0 <= j < x implies !kernel_key(#[trigger] b[j], n) by {
            assert(!kernel_key(a[j], n));
        }
    }
}

/// The new interface at `j` sets the state of the interface at `x`, the first
/// one named by its synced peer.
pub open spec fn peer_at(old: Seq<InterfaceView>, new: Seq<InterfaceView>, j: int, x: int) -> bool {
    synced_peer(old, new[j]) matches Some(p) && first_kernel(old, p, x)
}

/// As [peer_at], and every new interface syncing to that peer agrees on the
/// state to set.
pub open spec fn peer_takes_state(old: Seq<InterfaceView>, new: Seq<InterfaceView>, j: int, x: int) -> bool {
    peer_at(old, new, j, x) && peer_state_agreed(old, new, synced_peer(old, new[j])->0, new[j].base.state)
}

/// Some of the first `upto` new interfaces syncs the state `st` to the peer
/// named `p`.
pub open spec fn synced_by_some(old: Seq<InterfaceView>, new: Seq<InterfaceView>, upto: int, p: Seq<char>, st: InterfaceState) -> bool {
    exists|j: int| 0 <= j < upto && #[trigger] synced_peer(old, new[j]) == Some(p) && new[j].base.state == st
}

/// Some of the first `upto` pending changes sets the state `st` on `p`.
spec fn in_pending(pend: Seq<(String, InterfaceState)>, upto: int, p: Seq<char>, st: InterfaceState) -> bool {
    exists|k: int| 0 <= k < upto && (#[trigger] pend[k]).0@ == p && pend[k].1 == st
}

/// The synced peer of a new interface, found against the kernel interfaces.
fn synced_peer_of<'a>(kernel: &'a Vec<Interface>, new_iface: &'a Interface) -> (r: Option<&'a str>)
    ensures
        match r {
            Some(p) => synced_peer(ifaces_view(kernel@), new_iface@) == Some(p@),
            None => synced_peer(ifaces_view(kernel@), new_iface@) is None,
        },
{
    let ghost sv = ifaces_view(kernel@);
    if !matches!(new_iface, Interface::Ethernet(_)) {
        return None;
    }
    let old_idx = match find_kernel_in(kernel, new_iface.name()) {
        Some(i) => i,
        None => return None,
    };
    proof {
        assert(first_kernel(sv, new_iface@.base.name@, old_idx as int));
        assert(kernel_key(sv[old_idx as int], new_iface@.base.name@));
        let c = choose|i: int| first_kernel(sv, new_iface@.base.name@, i);
        lemma_first_kernel_unique(sv, new_iface@.base.name@, c, old_idx as int);
        assert(sv[old_idx as int] == kernel@[old_idx as int]@);
    }
    let old_iface = &kernel[old_idx];
    if !matches!(old_iface, Interface::Ethernet(_)) {
        return None;
    }
    match veth_peer(new_iface) {
        Some(p) => Some(p),
        None => veth_peer(old_iface),
    }
}

impl Interfaces {
    /// Sync the state of each veth in `new_ifaces` to its peer: the peer (as
    /// named by the new or the old veth) takes the new state when it differs.
    /// Only states change; a changed state is that of a new interface syncing
    /// to that peer, and a peer that all new interfaces syncing to it agree on
    /// takes their state.
    pub fn post_merge_veth(&mut self, new_ifaces: &Self)
        ensures
            same_but_states(ifaces_view(final(self).kernel_ifaces@), ifaces_view(old(self).kernel_ifaces@)),
            ifaces_view(final(self).user_ifaces@) == ifaces_view(old(self).user_ifaces@),
            final(self).insert_order@ == old(self).insert_order@,
            forall|x: int|
                0 <= x < old(self).kernel_ifaces@.len() && (#[trigger] final(self).kernel_ifaces@[x])@.base.state
                    != old(self).kernel_ifaces@[x]@.base.state ==> synced_by_some(
                    ifaces_view(old(self).kernel_ifaces@),
                    ifaces_view(new_ifaces.kernel_ifaces@),
                    new_ifaces.kernel_ifaces@.len() as int,
                    old(self).kernel_ifaces@[x]@.base.name@,
                    final(self).kernel_ifaces@[x]@.base.state,
                ),
            forall|j: int, x: int|
                0 <= j < new_ifaces.kernel_ifaces@.len() && #[trigger] peer_takes_state(
                    ifaces_view(old(self).kernel_ifaces@),
                    ifaces_view(new_ifaces.kernel_ifaces@),
                    j,
                    x,
                ) ==> final(self).kernel_ifaces@[x]@.base.state == new_ifaces.kernel_ifaces@[j]@.base.state,
    {
        let ghost sv = ifaces_view(self.kernel_ifaces@);
        let ghost nv = ifaces_view(new_ifaces.kernel_ifaces@);
        let mut pending: Vec<(String, InterfaceState)> = Vec::new();
        let mut j: usize = 0;
        while j < new_ifaces.kernel_ifaces.len()
            invariant
                j <= new_ifaces.kernel_ifaces.len(),
                sv == ifaces_view(self.kernel_ifaces@),
                nv == ifaces_view(new_ifaces.kernel_ifaces@),
                forall|k: int|
                    0 <= k < pending@.len() ==> synced_by_some(
                        sv,
                        nv,
                        j as int,
                        (#[trigger] pending@[k]).0@,
                        pending@[k].1,
                    ),
                forall|jj: int, x: int|
                    0 <= jj < j && #[trigger] peer_at(sv, nv, jj, x) ==> sv[x].base.state == nv[jj].base.state
                        || in_pending(pending@, pending@.len() as int, synced_peer(sv, nv[jj])->0, nv[jj].base.state),
            decreases new_ifaces.kernel_ifaces.len() - j,
        {
            let new_iface = &new_ifaces.kernel_ifaces[j];
            let ghost jj0 = j as int;
            let ghost prev = pending@;
            proof {
                assert(nv[jj0] == new_iface@);
            }
            j += 1;
            if let Some(peer) = synced_peer_of(&self.kernel_ifaces, new_iface) {
                if let Some(pi) = find_kernel_in(&self.kernel_ifaces, peer) {
                    let new_state = new_iface.base_iface().state;
                    proof {
                        assert(sv[pi as int] == self.kernel_ifaces@[pi as int]@);
                    }
                    if self.kernel_ifaces[pi].base_iface().state != new_state {
                        pending.push((crate::text::str_to_string(peer), new_state));
                        proof {
                            let last = pending@.len() - 1;
                            assert(pending@[last].0@ == peer@);
                            assert forall|k: int| 0 <= k < pending@.len() implies synced_by_some(
                                sv,
                                nv,
                                j as int,
                                (#[trigger] pending@[k]).0@,
                                pending@[k].1,
                            ) by {
                                if k == last {
                                    assert(synced_peer(sv, nv[jj0]) == Some(pending@[k].0@));
                                } else {
                                    assert(pending@[k] == prev[k]);
                                    assert(synced_by_some(sv, nv, jj0, prev[k].0@, prev[k].1));
                                }
                            }
                            assert forall|jj: int, x: int|
                                0 <= jj < j && #[trigger] peer_at(sv, nv, jj, x) implies sv[x].base.state
                                    == nv[jj].base.state || in_pending(
                                    pending@,
                                    pending@.len() as int,
                                    synced_peer(sv, nv[jj])->0,
                                    nv[jj].base.state,
                                ) by {
                                if jj == jj0 {
                                    assert(pending@[last].0@ == synced_peer(sv, nv[jj])->0);
                                } else if !(sv[x].base.state == nv[jj].base.state) {
                                    let k = choose|k: int|
                                        0 <= k < prev.len() && (#[trigger] prev[k]).0@ == synced_peer(sv, nv[jj])->0
                                            && prev[k].1 == nv[jj].base.state;
                                    assert(pending@[k] == prev[k]);
                                }
                            }
                        }
                    } else {
                        proof {
                            assert forall|jj: int, x: int|
                                0 <= jj < j && #[trigger] peer_at(sv, nv, jj, x) implies sv[x].base.state
                                    == nv[jj].base.state || in_pending(
                                    pending@,
                                    pending@.len() as int,
                                    synced_peer(sv, nv[jj])->0,
                                    nv[jj].base.state,
                                ) by {
                                if jj == jj0 {
                                    lemma_first_kernel_unique(sv, peer@, x, pi as int);
                                }
                            }
                        }
                    }
                } else {
                    proof {
                        assert forall|jj: int, x: int|
                            0 <= jj < j && #[trigger] peer_at(sv, nv, jj, x) implies sv[x].base.state
                                == nv[jj].base.state || in_pending(
                                pending@,
                                pending@.len() as int,
                                synced_peer(sv, nv[jj])->0,
                                nv[jj].base.state,
                            ) by {
                            if jj == jj0 {
                                assert(kernel_key(sv[x], peer@));
                            }
                        }
                    }
                }
            }
        }
        let ghost orig = ifaces_view(self.kernel_ifaces@);
        let mut k: usize = 0;
        while k < pending.len()
            invariant
                k <= pending.len(),
                sv == orig,
                nv == ifaces_view(new_ifaces.kernel_ifaces@),
                same_but_states(ifaces_view(self.kernel_ifaces@), orig),
                orig == ifaces_view(old(self).kernel_ifaces@),
                ifaces_view(self.user_ifaces@) == ifaces_view(old(self).user_ifaces@),
                self.insert_order@ == old(self).insert_order@,
                forall|x: int|
                    0 <= x < orig.len() && (#[trigger] ifaces_view(self.kernel_ifaces@)[x]).base.state
                        != orig[x].base.state ==> in_pending(
                        pending@,
                        k as int,
                        orig[x].base.name@,
                        ifaces_view(self.kernel_ifaces@)[x].base.state,
                    ),
                forall|kk: int, x: int|
                    0 <= kk < k && #[trigger] first_kernel(orig, pending@[kk].0@, x) ==> in_pending(
                        pending@,
                        k as int,
                        pending@[kk].0@,
                        ifaces_view(self.kernel_ifaces@)[x].base.state,
                    ),
            decreases pending.len() - k,
        {
            let (peer_name, state) = &pending[k];
            let ghost cur = ifaces_view(self.kernel_ifaces@);
            let ghost kk0 = k as int;
            if let Some(pi) = find_kernel_in(&self.kernel_ifaces, peer_name.as_str()) {
                proof {
                    lemma_first_kernel_same_names(cur, orig, peer_name@, pi as int);
                }
                set_state_at(&mut self.kernel_ifaces, pi, *state);
                proof {
                    let now = ifaces_view(self.kernel_ifaces@);
                    assert forall|x: int| 0 <= x < orig.len() implies #[trigger] same_but_state(now[x], orig[x]) by {
                        assert(same_but_state(now[x], cur[x]));
                        assert(same_but_state(cur[x], orig[x]));
                    }
                    assert(now[pi as int].base.state == *state);
                    assert(pending@[kk0] == (*peer_name, *state));
                    assert forall|x: int|
                        0 <= x < orig.len() && (#[trigger] now[x]).base.state != orig[x].base.state implies in_pending(
                            pending@,
                            k + 1,
                            orig[x].base.name@,
                            now[x].base.state,
                        ) by {
                        if x == pi as int {
                            assert(kernel_key(orig[x], peer_name@));
                            assert(pending@[kk0].0@ == orig[x].base.name@);
                        } else {
                            assert(now[x] == cur[x]);
                            if cur[x].base.state != orig[x].base.state {
                                let w = choose|w: int|
                                    0 <= w < k && (#[trigger] pending@[w]).0@ == orig[x].base.name@ && pending@[w].1
                                        == cur[x].base.state;
                            }
                        }
                    }
                    assert forall|kk: int, x: int|
                        0 <= kk < k + 1 && #[trigger] first_kernel(orig, pending@[kk].0@, x) implies in_pending(
                            pending@,
                            k + 1,
                            pending@[kk].0@,
                            now[x].base.state,
                        ) by {
                        if x == pi as int {
                            assert(kernel_key(orig[x], pending@[kk].0@));
                            assert(kernel_key(orig[x], pending@[kk0].0@));
                            assert(pending@[kk0].0@ == pending@[kk].0@);
                        } else {
                            assert(now[x] == cur[x]);
                            if kk == kk0 {
                                lemma_first_kernel_unique(orig, pending@[kk].0@, x, pi as int);
                            } else {
                                let w = choose|w: int|
                                    0 <= w < k && (#[trigger] pending@[w]).0@ == pending@[kk].0@ && pending@[w].1
                                        == cur[x].base.state;
                            }
                        }
                    }
                }
            } else {
                proof {
                    assert forall|x: int| !first_kernel(orig, peer_name@, x) by {
                        lemma_first_kernel_same_names(cur, orig, peer_name@, x);
                        if first_kernel(orig, peer_name@, x) {
                            assert(kernel_key(cur[x], peer_name@));
                        }
                    }
                    assert forall|kk: int, x: int|
                        0 <= kk < k + 1 && #[trigger] first_kernel(orig, pending@[kk].0@, x) implies in_pending(
                            pending@,
                            k + 1,
                            pending@[kk].0@,
                            cur[x].base.state,
                        ) by {
                        if kk < k {
                            let w = choose|w: int|
                                0 <= w < k && (#[trigger] pending@[w]).0@ == pending@[kk].0@ && pending@[w].1
                                    == cur[x].base.state;
                        }
                    }
                }
            }
            k += 1;
        }
        proof {
            let fv = ifaces_view(self.kernel_ifaces@);
            let nl = new_ifaces.kernel_ifaces@.len() as int;
            assert forall|x: int|
                0 <= x < old(self).kernel_ifaces@.len() && (#[trigger] self.kernel_ifaces@[x])@.base.state
                    != old(self).kernel_ifaces@[x]@.base.state implies synced_by_some(
                    sv,
                    nv,
                    nl,
                    old(self).kernel_ifaces@[x]@.base.name@,
                    self.kernel_ifaces@[x]@.base.state,
                ) by {
                assert(fv[x] == self.kernel_ifaces@[x]@);
                assert(orig[x] == old(self).kernel_ifaces@[x]@);
                let kk = choose|kk: int|
                    0 <= kk < pending@.len() && (#[trigger] pending@[kk]).0@ == orig[x].base.name@ && pending@[kk].1
                        == fv[x].base.state;
                assert(synced_by_some(sv, nv, nl, pending@[kk].0@, pending@[kk].1));
            }
            assert forall|j: int, x: int|
                0 <= j < new_ifaces.kernel_ifaces@.len() && #[trigger] peer_takes_state(sv, nv, j, x) implies self.kernel_ifaces@[x]@.base.state
                    == new_ifaces.kernel_ifaces@[j]@.base.state by {
                let p = synced_peer(sv, nv[j])->0;
                let st = nv[j].base.state;
                assert(nv[j] == new_ifaces.kernel_ifaces@[j]@);
                assert(fv[x] == self.kernel_ifaces@[x]@);
                assert(kernel_key(orig[x], p));
                if fv[x].base.state != orig[x].base.state {
                    let kk = choose|kk: int|
                        0 <= kk < pending@.len() && (#[trigger] pending@[kk]).0@ == orig[x].base.name@ && pending@[kk].1
                            == fv[x].base.state;
                    assert(synced_by_some(sv, nv, nl, pending@[kk].0@, pending@[kk].1));
                    let jj = choose|jj: int|
                        0 <= jj < nl && #[trigger] synced_peer(sv, nv[jj]) == Some(pending@[kk].0@) && nv[jj].base.state
                            == pending@[kk].1;
                    assert(synced_peer(sv, nv[jj]) == Some(p));
                } else if orig[x].base.state != st {
                    assert(peer_at(sv, nv, j, x));
                    let kk = choose|kk: int|
                        0 <= kk < pending@.len() && (#[trigger] pending@[kk]).0@ == p && pending@[kk].1 == st;
                    assert(first_kernel(orig, pending@[kk].0@, x));
                    let k2 = choose|k2: int|
                        0 <= k2 < pending@.len() && (#[trigger] pending@[k2]).0@ == pending@[kk].0@ && pending@[k2].1
                            == fv[x].base.state;
                    assert(synced_by_some(sv, nv, nl, pending@[k2].0@, pending@[k2].1));
                    let jj = choose|jj: int|
                        0 <= jj < nl && #[trigger] synced_peer(sv, nv[jj]) == Some(pending@[k2].0@) && nv[jj].base.state
                            == pending@[k2].1;
                    assert(synced_peer(sv, nv[jj]) == Some(p));
                }
            }
        }
    }

    /// The new interfaces merged over these ones: each new interface merged
    /// over the old one of the same key (or taken as is), then the old
    /// interfaces the new ones do not mention, then veth states synced to
    /// their peers. Every old and every new interface name is present in the
    /// result.
    pub fn merge(&self, new_ifaces: &Self) -> (r: Result<Self, NipartError>)
        ensures
            r is Ok,
            r matches Ok(m) ==> forall|n: Seq<char>|
                all_names(*new_ifaces).contains(n) || all_names(*self).contains(n) ==> #[trigger] all_names(
                    m,
                ).contains(n),
    {
        let mut ret = Interfaces::new();
        let news = new_ifaces.to_vec();
        proof {
            assert(iface_names(ifaces_view(news@)) =~= all_names(*new_ifaces));
        }
        let mut i: usize = 0;
        while i < news.len()
            invariant
                i <= news.len(),
                iface_names(ifaces_view(news@)) == all_names(*new_ifaces),
                forall|k: int| 0 <= k < i ==> all_names(ret).contains(#[trigger] news@[k]@.base.name@),
            decreases news.len() - i,
        {
            let new_iface = &news[i];
            let ghost before = ret;
            match self.get(new_iface.name(), Some(new_iface.iface_type())) {
                Some(old_iface) => {
                    let merged = old_iface.merge(new_iface);
                    match merged {
                        Ok(m) => ret.push(m),
                        Err(e) => return Err(e),
                    }
                },
                None => ret.push(new_iface.clone()),
            }
            proof {
                assert forall|k: int| 0 <= k < i + 1 implies all_names(ret).contains(
                    #[trigger] news@[k]@.base.name@,
                ) by {
                    if k < i {
                        assert(all_names(before).contains(news@[k]@.base.name@));
                    }
                }
            }
            i += 1;
        }
        let olds = self.to_vec();
        proof {
            assert(iface_names(ifaces_view(olds@)) =~= all_names(*self));
        }
        let mut j: usize = 0;
        while j < olds.len()
            invariant
                j <= olds.len(),
                iface_names(ifaces_view(olds@)) == all_names(*self),
                iface_names(ifaces_view(news@)) == all_names(*new_ifaces),
                forall|k: int| 0 <= k < news@.len() ==> all_names(ret).contains(#[trigger] news@[k]@.base.name@),
                forall|k: int| 0 <= k < j ==> all_names(ret).contains(#[trigger] olds@[k]@.base.name@),
            decreases olds.len() - j,
        {
            let old_iface = &olds[j];
            let ghost before = ret;
            let found = new_ifaces.get(old_iface.name(), Some(old_iface.iface_type()));
            if found.is_none() {
                ret.push(old_iface.clone());
            } else {
                proof {
                    let n = old_iface@.base.name@;
                    let kn = iface_names(ifaces_view(new_ifaces.kernel_ifaces@));
                    let un = iface_names(ifaces_view(new_ifaces.user_ifaces@));
                    if lookup_is_user(Some(old_iface@.base.iface_type)) {
                        let x = choose|x: int|
                            first_user(ifaces_view(new_ifaces.user_ifaces@), n, old_iface@.base.iface_type, x);
                        assert(un[x] == n);
                        assert((kn + un)[kn.len() + x] == n);
                    } else {
                        let x = choose|x: int| first_kernel(ifaces_view(new_ifaces.kernel_ifaces@), n, x);
                        assert(kn[x] == n);
                        assert((kn + un)[x] == n);
                    }
                    assert(all_names(*new_ifaces).contains(n));
                    let k = choose|k: int| 0 <= k < all_names(*new_ifaces).len() && all_names(*new_ifaces)[k] == n;
                    assert(iface_names(ifaces_view(news@))[k] == news@[k]@.base.name@);
                    assert(all_names(ret).contains(news@[k]@.base.name@));
                }
            }
            proof {
                assert forall|k: int| 0 <= k < j + 1 implies all_names(ret).contains(
                    #[trigger] olds@[k]@.base.name@,
                ) by {
                    if k < j {
                        assert(all_names(before).contains(olds@[k]@.base.name@));
                    }
                }
                assert forall|k: int| 0 <= k < news@.len() implies all_names(ret).contains(
                    #[trigger] news@[k]@.base.name@,
                ) by {
                    assert(all_names(before).contains(news@[k]@.base.name@));
                }
            }
            j += 1;
        }
        let ghost pre_veth = ret;
        ret.post_merge_veth(new_ifaces);
        proof {
            assert(all_names(ret) =~= all_names(pre_veth)) by {
                assert(iface_names(ifaces_view(ret.kernel_ifaces@)) =~= iface_names(
                    ifaces_view(pre_veth.kernel_ifaces@),
                )) by {
                    assert forall|x: int| 0 <= x < ret.kernel_ifaces@.len() implies iface_names(
                        ifaces_view(ret.kernel_ifaces@),
                    )[x] == iface_names(ifaces_view(pre_veth.kernel_ifaces@))[x] by {
                        assert(same_but_state(
                            ifaces_view(ret.kernel_ifaces@)[x],
                            ifaces_view(pre_veth.kernel_ifaces@)[x],
                        ));
                    }
                }
            }
            assert forall|n: Seq<char>| all_names(*new_ifaces).contains(n) || all_names(*self).contains(
                n,
            ) implies #[trigger] all_names(ret).contains(n) by {
                if all_names(*new_ifaces).contains(n) {
                    let k = choose|k: int| 0 <= k < all_names(*new_ifaces).len() && all_names(*new_ifaces)[k] == n;
                    assert(iface_names(ifaces_view(news@))[k] == news@[k]@.base.name@);
                    assert(all_names(pre_veth).contains(news@[k]@.base.name@));
                } else {
                    let k = choose|k: int| 0 <= k < all_names(*self).len() && all_names(*self)[k] == n;
                    assert(iface_names(ifaces_view(olds@))[k] == olds@[k]@.base.name@);
                    assert(all_names(pre_veth).contains(olds@[k]@.base.name@));
                }
            }
        }
        Ok(ret)
    }
}

} // verus!
