use vstd::prelude::*;

use crate::nmstate::iface::{IfaceSection, Interface, InterfaceView};
use crate::nmstate::iface_state::InterfaceState;
use crate::nmstate::iface_type::InterfaceType;
use crate::nmstate::ifaces::base::{BaseInterface, BaseInterfaceView};
use crate::nmstate::ifaces::simple::EthernetInterface;
use crate::nmstate::merged::iface::{opt_iface_view, MergedInterface, MergedInterfaceView};
use crate::nmstate::merged::ifaces::{find_mkernel, has_mkernel, mifaces_view, mkernel_key, MergedInterfaces};
use crate::text::str_to_string;

verus! {

/// The veth peer named by an interface, if it is a veth.
pub open spec fn peer_of(v: Option<InterfaceView>) -> Option<Seq<char>> {
    match v {
        Some(i) => crate::nmstate::interfaces::veth_peer_of(i),
        None => None,
    }
}

#[verifier::spinoff_prover]
fn opt_veth_peer(i: &Option<Interface>) -> (r: Option<&str>)
    ensures
        match r {
            Some(p) => peer_of(opt_iface_view(*i)) == Some(p@),
            None => peer_of(opt_iface_view(*i)) is None,
        },
{
    match i {
        Some(Interface::Ethernet(e)) => match &e.veth {
            Some(v) => Some(v.peer.as_str()),
            None => None,
        },
        _ => None,
    }
}


/// A merged entry that creates the veth peer `peer` of the veth `veth`: it is
/// desired up as an ethernet interface whose veth peer is `veth`, at up
/// priority 1, is currently down with the same veth peer, and has nothing
/// to verify.
#[verifier::opaque]
pub open spec fn new_veth_peer_entry(m: MergedInterfaceView, peer: Seq<char>, veth: Seq<char>) -> bool {
    &&& m.merged.base.name@ == peer
    &&& m.desired matches Some(d) && d.base == (BaseInterfaceView {
        up_priority: 1,
        ..crate::nmstate::ifaces::base::bare_base(d.base.name, InterfaceType::Ethernet, InterfaceState::Up)
    }) && d.base.name@ == peer && (d.section matches IfaceSection::Ethernet(e, Some(v)) && e is None && v.peer@
        == veth)
    &&& m.current matches Some(c) && c.base == crate::nmstate::ifaces::base::bare_base(
        c.base.name,
        InterfaceType::Ethernet,
        InterfaceState::Down,
    ) && c.base.name@ == peer && (c.section matches IfaceSection::Ethernet(e, Some(v)) && e is None && v.peer@
        == veth)
    &&& m.for_verify is None
}

/// A merged entry that creates the veth peer it is named after, for the veth
/// that its desired form names as peer.
#[verifier::opaque]
pub open spec fn is_new_veth_peer(m: MergedInterfaceView) -> bool {
    m.desired matches Some(d) && d.section matches IfaceSection::Ethernet(_, Some(v)) && new_veth_peer_entry(
        m,
        m.merged.base.name@,
        v.peer@,
    )
}

/// The merged entry that creates the veth peer `peer` of the veth `veth`.
#[verifier::spinoff_prover]
fn new_peer_entry(peer: &str, veth: &str) -> (r: Option<MergedInterface>)
    ensures
        r matches Some(m) && is_new_veth_peer(m@) && m@.merged.base.name@ == peer@,
{
    let mut base_iface = BaseInterface::new(str_to_string(peer), InterfaceType::Ethernet);
    let mut cur_base_iface = base_iface.clone();
    cur_base_iface.state = InterfaceState::Down;
    let cur_iface = Interface::Ethernet(Box::new(EthernetInterface::new_veth(cur_base_iface, veth)));
    base_iface.up_priority = 1;
    let des_iface = Interface::Ethernet(Box::new(EthernetInterface::new_veth(base_iface, veth)));
    match MergedInterface::new(Some(des_iface), Some(cur_iface)) {
        Ok(mut m) => {
            m.for_verify = None;
            proof {
                reveal(new_veth_peer_entry);
                reveal(is_new_veth_peer);
                assert(new_veth_peer_entry(m@, peer@, veth@));
            }
            Some(m)
        },
        Err(_) => None,
    }
}

/// The entry at `j` is a veth to be created whose peer has no entry.
pub open spec fn wants_new_peer(s: Seq<MergedInterfaceView>, j: int) -> bool {
    &&& s[j].current is None
    &&& peer_of(s[j].for_apply) matches Some(p) && !has_mkernel(s, p)
}

/// Each of the first `upto` entries that wants a new peer has its peer's
/// name in `names`.
#[verifier::opaque]
pub open spec fn peers_listed(s: Seq<MergedInterfaceView>, upto: int, names: Seq<Seq<char>>) -> bool {
    forall|j: int| 0 <= j < upto && #[trigger] wants_new_peer(s, j) ==> names.contains(peer_of(s[j].for_apply)->0)
}

/// Each of the first `upto` names has an entry.
#[verifier::opaque]
pub open spec fn names_present(s: Seq<MergedInterfaceView>, names: Seq<Seq<char>>, upto: int) -> bool {
    forall|t: int| 0 <= t < upto ==> has_mkernel(s, #[trigger] names[t])
}

proof fn lemma_listed_skip(s: Seq<MergedInterfaceView>, i: int, names: Seq<Seq<char>>)
    requires
        peers_listed(s, i, names),
        !wants_new_peer(s, i),
    ensures
        peers_listed(s, i + 1, names),
{
    reveal(peers_listed);
}

proof fn lemma_listed_push(s: Seq<MergedInterfaceView>, i: int, names: Seq<Seq<char>>, p: Seq<char>)
    requires
        peers_listed(s, i, names),
        wants_new_peer(s, i) ==> peer_of(s[i].for_apply)->0 == p,
    ensures
        peers_listed(s, i + 1, names.push(p)),
{
    reveal(peers_listed);
    let nn = names.push(p);
    assert(nn[names.len() as int] == p);
    assert forall|j: int| 0 <= j < i + 1 && #[trigger] wants_new_peer(s, j) implies nn.contains(
        peer_of(s[j].for_apply)->0,
    ) by {
        if j < i {
            let q = choose|q: int| 0 <= q < names.len() && names[q] == peer_of(s[j].for_apply)->0;
            assert(nn[q] == names[q]);
        }
    }
}

proof fn lemma_present_set(
    before: Seq<MergedInterfaceView>,
    after: Seq<MergedInterfaceView>,
    p: int,
    names: Seq<Seq<char>>,
    upto: int,
)
    requires
        names_present(before, names, upto),
        0 <= p < before.len(),
        after.len() == before.len(),
        after[p].merged.base.name@ == before[p].merged.base.name@,
        forall|k: int| 0 <= k < before.len() && k != p ==> after[k] == before[k],
        0 <= upto < names.len(),
        mkernel_key(after[p], names[upto]),
    ensures
        names_present(after, names, upto + 1),
{
    reveal(names_present);
    assert forall|t: int| 0 <= t < upto + 1 implies has_mkernel(after, #[trigger] names[t]) by {
        if t == upto {
            assert(mkernel_key(after[p], names[t]));
        } else {
            let q = choose|q: int| 0 <= q < before.len() && #[trigger] mkernel_key(before[q], names[t]);
            assert(mkernel_key(after[q], names[t]));
        }
    }
}

proof fn lemma_present_push(before: Seq<MergedInterfaceView>, x: MergedInterfaceView, names: Seq<Seq<char>>, upto: int)
    requires
        names_present(before, names, upto),
        0 <= upto < names.len(),
        x.merged.base.name@ == names[upto],
    ensures
        names_present(before.push(x), names, upto + 1),
{
    reveal(names_present);
    let after = before.push(x);
    assert forall|t: int| 0 <= t < upto + 1 implies has_mkernel(after, #[trigger] names[t]) by {
        if t == upto {
            assert(mkernel_key(after[before.len() as int], names[t]));
        } else {
            let q = choose|q: int| 0 <= q < before.len() && #[trigger] mkernel_key(before[q], names[t]);
            assert(after[q] == before[q]);
            assert(mkernel_key(after[q], names[t]));
        }
    }
}

proof fn lemma_peers_covered(kv: Seq<MergedInterfaceView>, fv: Seq<MergedInterfaceView>, names: Seq<Seq<char>>)
    requires
        peers_listed(kv, kv.len() as int, names),
        names_present(fv, names, names.len() as int),
    ensures
        forall|j: int|
            0 <= j < kv.len() && #[trigger] wants_new_peer(kv, j) ==> has_mkernel(fv, peer_of(kv[j].for_apply)->0),
{
    reveal(peers_listed);
    reveal(names_present);
    assert forall|j: int| 0 <= j < kv.len() && #[trigger] wants_new_peer(kv, j) implies has_mkernel(
        fv,
        peer_of(kv[j].for_apply)->0,
    ) by {
        let q = choose|q: int| 0 <= q < names.len() && names[q] == peer_of(kv[j].for_apply)->0;
        assert(has_mkernel(fv, names[q]));
    }
}

/// The new veth peer entry wanted by the entry at `i`, if it wants one.
#[verifier::spinoff_prover]
fn wanted_peer_entry(kernel: &Vec<MergedInterface>, i: usize) -> (r: Option<MergedInterface>)
    requires
        i < kernel.len(),
    ensures
        match r {
            Some(m) => wants_new_peer(mifaces_view(kernel@), i as int) && is_new_veth_peer(m@)
                && m@.merged.base.name@ == peer_of(kernel@[i as int]@.for_apply)->0,
            None => !wants_new_peer(mifaces_view(kernel@), i as int),
        },
{
    let iface = &kernel[i];
    assert(mifaces_view(kernel@)[i as int] == iface@);
    if iface.current.is_some() {
        return None;
    }
    let eth_name = match &iface.for_apply {
        Some(Interface::Ethernet(e)) => e.base.name.as_str(),
        _ => return None,
    };
    let peer = match opt_veth_peer(&iface.for_apply) {
        Some(p) => p,
        None => return None,
    };
    if find_mkernel(kernel, peer).is_some() {
        return None;
    }
    new_peer_entry(peer, eth_name)
}

impl MergedInterfaces {
    /// When a veth is to be created, its peer is created too (down at first,
    /// brought up after the veth) unless it exists already: the entries kept
    /// are unchanged, each entry added is such a new veth peer, and each veth
    /// to be created whose peer had no entry now has one.
    pub fn bring_new_veth_peer_up(&mut self)
        ensures
            final(self).kernel_ifaces@.len() >= old(self).kernel_ifaces@.len(),
            forall|k: int|
                0 <= k < old(self).kernel_ifaces@.len() ==> (#[trigger] final(self).kernel_ifaces@[k])@ == old(
                    self,
                ).kernel_ifaces@[k]@,
            forall|k: int|
                old(self).kernel_ifaces@.len() <= k < final(self).kernel_ifaces@.len() ==> is_new_veth_peer(
                    #[trigger] mifaces_view(final(self).kernel_ifaces@)[k],
                ),
            forall|j: int|
                0 <= j < old(self).kernel_ifaces@.len() && #[trigger] wants_new_peer(
                    mifaces_view(old(self).kernel_ifaces@),
                    j,
                ) ==> has_mkernel(
                    mifaces_view(final(self).kernel_ifaces@),
                    peer_of(mifaces_view(old(self).kernel_ifaces@)[j].for_apply)->0,
                ),
            final(self).user_ifaces@ == old(self).user_ifaces@,
            final(self).insert_order@ == old(self).insert_order@,
    {
        let ghost kv = mifaces_view(self.kernel_ifaces@);
        let ghost mut names: Seq<Seq<char>> = Seq::empty();
        proof {
            reveal(peers_listed);
        }
        let mut new_veth_peers: Vec<MergedInterface> = Vec::new();
        let mut i: usize = 0;
        while i < self.kernel_ifaces.len()
            invariant
                i <= self.kernel_ifaces.len(),
                kv == mifaces_view(self.kernel_ifaces@),
                names.len() == new_veth_peers@.len(),
                forall|k: int|
                    0 <= k < new_veth_peers@.len() ==> !has_mkernel(kv, (#[trigger] new_veth_peers@[k])@.merged.base.name@)
                        && is_new_veth_peer(new_veth_peers@[k]@) && names[k] == new_veth_peers@[k]@.merged.base.name@,
                peers_listed(kv, i as int, names),
            decreases self.kernel_ifaces.len() - i,
        {
            match wanted_peer_entry(&self.kernel_ifaces, i) {
                Some(m) => {
                    proof {
                        lemma_listed_push(kv, i as int, names, m@.merged.base.name@);
                        names = names.push(m@.merged.base.name@);
                    }
                    new_veth_peers.push(m);
                },
                None => {
                    proof {
                        lemma_listed_skip(kv, i as int, names);
                    }
                },
            }
            i += 1;
        }
        let ghost orig = self.kernel_ifaces@;
        proof {
            reveal(names_present);
        }
        let mut j: usize = 0;
        while j < new_veth_peers.len()
            invariant
                j <= new_veth_peers.len(),
                self.kernel_ifaces@.len() >= orig.len(),
                orig == old(self).kernel_ifaces@,
                kv == mifaces_view(orig),
                self.user_ifaces@ == old(self).user_ifaces@,
                self.insert_order@ == old(self).insert_order@,
                forall|k: int| 0 <= k < orig.len() ==> (#[trigger] self.kernel_ifaces@[k])@ == orig[k]@,
                names.len() == new_veth_peers@.len(),
                forall|k: int|
                    0 <= k < new_veth_peers@.len() ==> !has_mkernel(kv, (#[trigger] new_veth_peers@[k])@.merged.base.name@)
                        && is_new_veth_peer(new_veth_peers@[k]@) && names[k] == new_veth_peers@[k]@.merged.base.name@,
                forall|k: int|
                    orig.len() <= k < self.kernel_ifaces@.len() ==> is_new_veth_peer(
                        #[trigger] mifaces_view(self.kernel_ifaces@)[k],
                    ),
                names_present(mifaces_view(self.kernel_ifaces@), names, j as int),
            decreases new_veth_peers.len() - j,
        {
            let m = new_veth_peers[j].clone();
            let ghost n = new_veth_peers@[j as int]@.merged.base.name@;
            let ghost before = mifaces_view(self.kernel_ifaces@);
            match find_mkernel(&self.kernel_ifaces, m.merged.name()) {
                Some(p) => {
                    proof {
                        if p < orig.len() {
                            assert(mkernel_key(mifaces_view(orig)[p as int], n));
                        }
                    }
                    self.kernel_ifaces.set(p, m);
                    proof {
                        let after = mifaces_view(self.kernel_ifaces@);
                        assert(after[p as int] == new_veth_peers@[j as int]@);
                        assert(forall|k: int| 0 <= k < after.len() && k != p ==> after[k] == before[k]);
                        assert(mkernel_key(after[p as int], n));
                        assert(mkernel_key(before[p as int], n));
                        lemma_present_set(before, after, p as int, names, j as int);
                    }
                },
                None => {
                    self.kernel_ifaces.push(m);
                    proof {
                        let after = mifaces_view(self.kernel_ifaces@);
                        assert(after =~= before.push(new_veth_peers@[j as int]@));
                        lemma_present_push(before, new_veth_peers@[j as int]@, names, j as int);
                    }
                },
            }
            j += 1;
        }
        proof {
            lemma_peers_covered(kv, mifaces_view(self.kernel_ifaces@), names);
        }
    }

    /// When a veth is to be removed, its peer is removed too unless desired.
    #[verifier::spinoff_prover]
    pub fn mark_veth_peer_absent_also(&mut self)
        ensures
            final(self).kernel_ifaces@.len() == old(self).kernel_ifaces@.len(),
            forall|k: int|
                0 <= k < old(self).kernel_ifaces@.len() ==> {
                    let n = (#[trigger] final(self).kernel_ifaces@[k])@;
                    let o = old(self).kernel_ifaces@[k]@;
                    n == o || (o.desired is None && n == (MergedInterfaceView {
                        for_apply: crate::nmstate::merged::iface::with_state(o.for_apply, InterfaceState::Absent),
                        ..o
                    }))
                },
            final(self).user_ifaces@ == old(self).user_ifaces@,
            final(self).insert_order@ == old(self).insert_order@,
    {
        let mut pending: Vec<String> = Vec::new();
        let mut i: usize = 0;
        while i < self.kernel_ifaces.len()
            invariant
                i <= self.kernel_ifaces.len(),
            decreases self.kernel_ifaces.len() - i,
        {
            let iface = &self.kernel_ifaces[i];
            i += 1;
            let absent = match &iface.for_apply {
                Some(a) => a.is_absent(),
                None => false,
            };
            if !absent {
                continue;
            }
            if let Some(peer) = opt_veth_peer(&iface.current) {
                if let Some(p) = find_mkernel(&self.kernel_ifaces, peer) {
                    if self.kernel_ifaces[p].desired.is_none() {
                        pending.push(str_to_string(peer));
                    }
                }
            }
        }
        let ghost orig = self.kernel_ifaces@;
        let mut j: usize = 0;
        while j < pending.len()
            invariant
                j <= pending.len(),
                self.kernel_ifaces@.len() == orig.len(),
                orig == old(self).kernel_ifaces@,
                self.user_ifaces@ == old(self).user_ifaces@,
                self.insert_order@ == old(self).insert_order@,
                forall|k: int|
                    0 <= k < orig.len() ==> {
                        let n = (#[trigger] self.kernel_ifaces@[k])@;
                        let o = orig[k]@;
                        n == o || (o.desired is None && n == (MergedInterfaceView {
                            for_apply: crate::nmstate::merged::iface::with_state(o.for_apply, InterfaceState::Absent),
                            ..o
                        }))
                    },
            decreases pending.len() - j,
        {
            if let Some(p) = find_mkernel(&self.kernel_ifaces, pending[j].as_str()) {
                if self.kernel_ifaces[p].desired.is_none() {
                    let mut m = self.kernel_ifaces[p].clone();
                    if let Some(a) = &mut m.for_apply {
                        a.base_iface_mut().state = InterfaceState::Absent;
                    }
                    let ghost before = self.kernel_ifaces@;
                    self.kernel_ifaces.set(p, m);
                    proof {
                        assert forall|k: int| 0 <= k < orig.len() implies {
                            let n = (#[trigger] self.kernel_ifaces@[k])@;
                            let o = orig[k]@;
                            n == o || (o.desired is None && n == (MergedInterfaceView {
                                for_apply: crate::nmstate::merged::iface::with_state(
                                    o.for_apply,
                                    InterfaceState::Absent,
                                ),
                                ..o
                            }))
                        } by {
                            if k != p {
                                assert(self.kernel_ifaces@[k] == before[k]);
                            } else {
                                let o = orig[k]@;
                                let b = before[k]@;
                                if b != o {
                                    assert(crate::nmstate::merged::iface::with_state(
                                        crate::nmstate::merged::iface::with_state(o.for_apply, InterfaceState::Absent),
                                        InterfaceState::Absent,
                                    ) == crate::nmstate::merged::iface::with_state(o.for_apply, InterfaceState::Absent));
                                }
                            }
                        }
                    }
                }
            }
            j += 1;
        }
    }

    /// Veth peers after merging: new peers created, peers of removed veths
    /// removed too.
    #[verifier::spinoff_prover]
    pub fn post_merge_sanitize_veth(&mut self)
        ensures
            final(self).user_ifaces@ == old(self).user_ifaces@,
            final(self).insert_order@ == old(self).insert_order@,
            final(self).kernel_ifaces@.len() >= old(self).kernel_ifaces@.len(),
    {
        self.bring_new_veth_peer_up();
        self.mark_veth_peer_absent_also();
    }
}

} // verus!
