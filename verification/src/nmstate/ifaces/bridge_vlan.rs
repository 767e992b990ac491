use vstd::prelude::*;
use vstd::string::*;

use crate::error::{ErrorKind, NipartError};
use crate::text::{decimal_string, decimal_text, str_to_string};

verus! {

/// Inclusive range of VLAN IDs.
#[derive(Debug, Clone, Copy, PartialEq, Eq, Structural, Default)]
#[non_exhaustive]
pub struct BridgeVlanRange {
    /// Minimum VLAN ID (included).
    pub min: u16,
    /// Maximum VLAN ID (included).
    pub max: u16,
}

impl BridgeVlanRange {
    pub fn new(min: u16, max: u16) -> (r: Self)
        ensures
            r.min == min,
            r.max == max,
    {
        Self { min, max }
    }
}

/// A trunk tag: one VLAN ID or an inclusive range of them.
#[derive(Debug, Clone, Copy, PartialEq, Eq, Structural)]
#[non_exhaustive]
pub enum BridgeVlanTrunkTag {
    /// Single VLAN trunk ID
    Id(u16),
    /// VLAN trunk ID range
    IdRange(BridgeVlanRange),
}

impl BridgeVlanTrunkTag {
    /// Text form: `id=` and the ID, or `id-range=[` the minimum, `,`, the
    /// maximum and `]`.
    pub fn to_display_string(&self) -> (r: String)
        ensures
            r@ == match *self {
                BridgeVlanTrunkTag::Id(d) => "id="@ + decimal_text(d as nat),
                BridgeVlanTrunkTag::IdRange(g) => "id-range=["@ + decimal_text(g.min as nat) + ","@ + decimal_text(
                    g.max as nat,
                ) + "]"@,
            },
    {
        match self {
            BridgeVlanTrunkTag::Id(d) => {
                let mut s = str_to_string("id=");
                let t = decimal_string(*d as u64);
                s.append(t.as_str());
                s
            },
            BridgeVlanTrunkTag::IdRange(g) => {
                let mut s = str_to_string("id-range=[");
                let a = decimal_string(g.min as u64);
                s.append(a.as_str());
                s.append(",");
                let b = decimal_string(g.max as u64);
                s.append(b.as_str());
                s.append("]");
                s
            },
        }
    }
}

/// Bridge VLAN filtering mode
#[derive(Debug, Clone, Copy, PartialEq, Eq, Structural, Default)]
#[non_exhaustive]
pub enum BridgeVlanMode {
    /// Trunk mode
    Trunk,
    /// Access mode
    #[default]
    Access,
}

/// Bridge VLAN filtering configuration
#[derive(Debug, Clone, PartialEq, Eq, Default)]
#[non_exhaustive]
pub struct BridgeVlanConfig {
    /// Enable native VLAN.
    pub enable_native: Option<bool>,
    /// Bridge VLAN filtering mode
    pub mode: Option<BridgeVlanMode>,
    /// VLAN Tag for native VLAN.
    pub tag: Option<u16>,
    /// Trunk tags.
    pub trunk_tags: Option<Vec<BridgeVlanTrunkTag>>,
}

/// Lowest VLAN ID a tag stands for.
pub open spec fn tag_lo(t: BridgeVlanTrunkTag) -> int {
    match t {
        BridgeVlanTrunkTag::Id(v) => v as int,
        BridgeVlanTrunkTag::IdRange(r) => r.min as int,
    }
}

/// Highest VLAN ID a tag stands for.
pub open spec fn tag_hi(t: BridgeVlanTrunkTag) -> int {
    match t {
        BridgeVlanTrunkTag::Id(v) => v as int,
        BridgeVlanTrunkTag::IdRange(r) => r.max as int,
    }
}

/// Whether the tag stands for VLAN ID `v`.
pub open spec fn tag_covers(t: BridgeVlanTrunkTag, v: int) -> bool {
    tag_lo(t) <= v <= tag_hi(t)
}

/// Whether some tag of the list stands for VLAN ID `v`.
pub open spec fn tags_cover(tags: Seq<BridgeVlanTrunkTag>, v: int) -> bool {
    exists|k: int| 0 <= k < tags.len() && #[trigger] tag_covers(tags[k], v)
}

/// A single ID is written as `Id`, a run of two or more as `IdRange`.
pub open spec fn tag_well_shaped(t: BridgeVlanTrunkTag) -> bool {
    match t {
        BridgeVlanTrunkTag::Id(_) => true,
        BridgeVlanTrunkTag::IdRange(r) => r.min < r.max,
    }
}

/// The canonical form of a tag list: well shaped tags in increasing order,
/// with a gap of at least one ID between consecutive tags (each run maximal).
pub open spec fn tags_canonical(tags: Seq<BridgeVlanTrunkTag>) -> bool {
    &&& forall|k: int| 0 <= k < tags.len() ==> tag_well_shaped(#[trigger] tags[k])
    &&& forall|a: int, b: int|
        0 <= a < b < tags.len() ==> tag_hi(#[trigger] tags[a]) + 1 < tag_lo(#[trigger] tags[b])
}

/// The VLAN IDs a tag expands to, in increasing order (none for an
/// inverted range).
pub open spec fn tag_ids(t: BridgeVlanTrunkTag) -> Seq<int> {
    Seq::new(
        if tag_hi(t) >= tag_lo(t) { (tag_hi(t) - tag_lo(t) + 1) as nat } else { 0 },
        |i: int| tag_lo(t) + i,
    )
}

/// The VLAN IDs of a tag list, tag after tag.
pub open spec fn tags_ids(tags: Seq<BridgeVlanTrunkTag>) -> Seq<int>
    decreases tags.len(),
{
    if tags.len() == 0 {
        Seq::empty()
    } else {
        tags_ids(tags.drop_last()) + tag_ids(tags.last())
    }
}

/// Every range of the list ends below 65535, so that its end plus one is a
/// VLAN ID too.
pub open spec fn tags_bounded(tags: Seq<BridgeVlanTrunkTag>) -> bool {
    forall|k: int| 0 <= k < tags.len() ==> tag_hi(#[trigger] tags[k]) < 65535
}

fn make_tag(lo: u16, hi: u16) -> (t: BridgeVlanTrunkTag)
    requires
        lo <= hi,
    ensures
        tag_lo(t) == lo,
        tag_hi(t) == hi,
        tag_well_shaped(t),
{
    if lo == hi {
        BridgeVlanTrunkTag::Id(lo)
    } else {
        BridgeVlanTrunkTag::IdRange(BridgeVlanRange { min: lo, max: hi })
    }
}

/// Compress a list of VLAN IDs into its canonical tag list: the IDs sorted,
/// deduplicated and grouped into maximal runs of consecutive IDs, a run of
/// one written as `Id` and a longer one as `IdRange`.
pub fn compress_vlan_ids(vids: Vec<u16>) -> (r: Vec<BridgeVlanTrunkTag>)
    ensures
        tags_canonical(r@),
        forall|v: int| tags_cover(r@, v) <==> vids@.contains(v as u16) && 0 <= v < 65536,
{
    let mut present: Vec<bool> = vec![false; 65536];
    let mut j: usize = 0;
    while j < vids.len()
        invariant
            j <= vids.len(),
            present.len() == 65536,
            forall|v: int|
                0 <= v < 65536 ==> (#[trigger] present@[v] <==> exists|k: int|
                    0 <= k < j && vids@[k] as int == v),
        decreases vids.len() - j,
    {
        let id = vids[j];
        present.set(id as usize, true);
        proof {
            assert forall|v: int| 0 <= v < 65536 implies (#[trigger] present@[v] <==> exists|k: int|
                0 <= k < j + 1 && vids@[k] as int == v) by {
                if v == id as int {
                    assert(vids@[j as int] as int == v);
                } else if present@[v] {
                    let k = choose|k: int| 0 <= k < j && vids@[k] as int == v;
                    assert(0 <= k < j + 1 && vids@[k] as int == v);
                }
            }
        }
        j += 1;
    }
    let mut ret: Vec<BridgeVlanTrunkTag> = Vec::new();
    let mut open: bool = false;
    let mut lo: u16 = 0;
    let mut hi: u16 = 0;
    let ghost mut last_hi: int = -2;
    let mut i: u32 = 0;
    while i < 65536
        invariant
            i <= 65536,
            present.len() == 65536,
            forall|v: int|
                0 <= v < 65536 ==> (#[trigger] present@[v] <==> exists|k: int|
                    0 <= k < vids.len() && vids@[k] as int == v),
            tags_canonical(ret@),
            forall|k: int| 0 <= k < ret.len() ==> 0 <= tag_lo(#[trigger] ret@[k]) <= tag_hi(ret@[k]) <= last_hi,
            ret.len() > 0 ==> last_hi + 1 < i && !present@[last_hi + 1],
            ret.len() == 0 ==> last_hi == -2,
            open ==> lo <= hi && hi + 1 == i && last_hi + 1 < lo,
            open && lo > 0 ==> !present@[lo - 1],
            !open ==> last_hi < i,
            forall|v: int|
                0 <= v < i ==> (present@[v] <==> (tags_cover(ret@, v) || (open && lo <= v <= hi))),
        decreases 65536 - i,
    {
        let p = present[i as usize];
        if p {
            if open {
                hi = i as u16;
            } else {
                open = true;
                lo = i as u16;
                hi = i as u16;
                proof {
                    if ret.len() > 0 {
                        assert(last_hi + 1 != i);
                    }
                }
            }
        } else {
            if open {
                let t = make_tag(lo, hi);
                let ghost old_ret = ret@;
                ret.push(t);
                proof {
                    last_hi = hi as int;
                    assert forall|v: int| tags_cover(old_ret, v) implies tags_cover(ret@, v) by {
                        let k = choose|k: int| 0 <= k < old_ret.len() && #[trigger] tag_covers(old_ret[k], v);
                        assert(ret@[k] == old_ret[k]);
                    }
                    assert(tag_covers(ret@[ret.len() - 1], lo as int));
                    assert forall|v: int| tags_cover(ret@, v) implies tags_cover(old_ret, v) || (lo <= v <= hi) by {
                        let k = choose|k: int| 0 <= k < ret@.len() && #[trigger] tag_covers(ret@[k], v);
                        if k < old_ret.len() {
                            assert(tag_covers(old_ret[k], v));
                        }
                    }
                    assert forall|v: int| lo <= v <= hi implies tags_cover(ret@, v) by {
                        assert(tag_covers(ret@[ret.len() - 1], v));
                    }
                }
                open = false;
            }
        }
        i += 1;
    }
    if open {
        let t = make_tag(lo, hi);
        let ghost old_ret = ret@;
        ret.push(t);
        proof {
            last_hi = hi as int;
            assert forall|v: int| tags_cover(old_ret, v) implies tags_cover(ret@, v) by {
                let k = choose|k: int| 0 <= k < old_ret.len() && #[trigger] tag_covers(old_ret[k], v);
                assert(ret@[k] == old_ret[k]);
            }
            assert forall|v: int| tags_cover(ret@, v) implies tags_cover(old_ret, v) || (lo <= v <= hi) by {
                let k = choose|k: int| 0 <= k < ret@.len() && #[trigger] tag_covers(ret@[k], v);
                if k < old_ret.len() {
                    assert(tag_covers(old_ret[k], v));
                }
            }
            assert forall|v: int| lo <= v <= hi implies tags_cover(ret@, v) by {
                assert(tag_covers(ret@[ret.len() - 1], v));
            }
        }
    }
    proof {
        assert forall|v: int| tags_cover(ret@, v) <==> vids@.contains(v as u16) && 0 <= v < 65536 by {
            if tags_cover(ret@, v) {
                let k = choose|k: int| 0 <= k < ret@.len() && #[trigger] tag_covers(ret@[k], v);
                assert(0 <= v < 65536);
                assert(present@[v]);
                let k2 = choose|k2: int| 0 <= k2 < vids.len() && vids@[k2] as int == v;
                assert(vids@[k2] == v as u16);
            }
            if vids@.contains(v as u16) && 0 <= v < 65536 {
                let k2 = choose|k2: int| 0 <= k2 < vids.len() && vids@[k2] == v as u16;
                assert(vids@[k2] as int == v);
                assert(present@[v]);
            }
        }
    }
    ret
}


/// Reject a trunk tag list in which some VLAN ID is given twice, by two `Id`
/// tags, by overlapping ranges, or by an `Id` inside a range.
pub fn validate_overlap_trunk_tags(tags: &Vec<BridgeVlanTrunkTag>) -> (r: Result<(), NipartError>)
    requires
        tags_bounded(tags@),
    ensures
        r is Ok <==> tags_ids(tags@).no_duplicates(),
        r matches Err(e) ==> e.kind == ErrorKind::InvalidArgument,
{
    let mut seen: Vec<bool> = vec![false; 65536];
    let mut i: usize = 0;
    while i < tags.len()
        invariant
            i <= tags.len(),
            seen.len() == 65536,
            tags_bounded(tags@),
            tags_ids(tags@.take(i as int)).no_duplicates(),
            forall|v: int| 0 <= v < 65536 ==> (#[trigger] seen@[v] <==> tags_ids(tags@.take(i as int)).contains(v)),
            forall|v: int| tags_ids(tags@.take(i as int)).contains(v) ==> 0 <= v < 65536,
        decreases tags.len() - i,
    {
        let tag = tags[i];
        let ghost prefix = tags_ids(tags@.take(i as int));
        proof {
            assert(tags@.take(i + 1).drop_last() =~= tags@.take(i as int));
            assert(tags@.take(i + 1).last() == tag);
            assert(tags_ids(tags@.take(i + 1)) == prefix + tag_ids(tag));
            assert(tag_hi(tags@[i as int]) < 65535);
        }
        match tag {
            BridgeVlanTrunkTag::Id(d) => {
                if seen[d as usize] {
                    proof {
                        let whole = tags_ids(tags@);
                        lemma_tags_ids_prefix(tags@, i as int + 1);
                        let k = choose|k: int| 0 <= k < prefix.len() && prefix[k] == d as int;
                        let cur = tags_ids(tags@.take(i + 1));
                        assert(tag_ids(tag)[0] == d as int);
                        assert(cur[k] == prefix[k]);
                        assert(cur[prefix.len() as int] == d as int);
                        assert(whole[k] == d as int);
                        assert(whole[prefix.len() as int] == d as int);
                    }
                    return Err(NipartError::from_str_msg(
                        ErrorKind::InvalidArgument,
                        "Bridge VLAN trunk tag is overlapping with other tag",
                    ));
                }
                seen.set(d as usize, true);
                proof {
                    let next = prefix + tag_ids(tag);
                    assert(tag_ids(tag) =~= seq![d as int]);
                    assert forall|a: int, b: int| 0 <= a < next.len() && 0 <= b < next.len() && a != b
                        implies next[a] != next[b] by {
                        if a < prefix.len() && b < prefix.len() {
                        } else if a < prefix.len() {
                            assert(!prefix.contains(d as int));
                        } else if b < prefix.len() {
                            assert(!prefix.contains(d as int));
                        }
                    }
                    assert forall|v: int| 0 <= v < 65536 implies (#[trigger] seen@[v] <==> next.contains(v)) by {
                        if next.contains(v) && v != d as int {
                            let k = choose|k: int| 0 <= k < next.len() && next[k] == v;
                            assert(prefix[k] == v);
                        }
                        if prefix.contains(v) {
                            let k = choose|k: int| 0 <= k < prefix.len() && prefix[k] == v;
                            assert(next[k] == v);
                        }
                        if v == d as int {
                            assert(next[prefix.len() as int] == v);
                        }
                    }
                    assert forall|v: int| next.contains(v) implies 0 <= v < 65536 by {
                        let k = choose|k: int| 0 <= k < next.len() && next[k] == v;
                        if k < prefix.len() {
                            assert(prefix.contains(v));
                        }
                    }
                }
            },
            BridgeVlanTrunkTag::IdRange(range) => {
                let mut id: u32 = range.min as u32;
                while id < range.max as u32 + 1
                    invariant
                        seen.len() == 65536,
                        range.max < 65535,
                        i < tags.len(),
                        tag == tags@[i as int],
                        prefix == tags_ids(tags@.take(i as int)),
                        tags_ids(tags@.take(i + 1)) == prefix + tag_ids(tag),
                        tag == BridgeVlanTrunkTag::IdRange(range),
                        range.min <= id,
                        id <= range.max as u32 + 1 || range.min > range.max,
                        range.min > range.max ==> id == range.min,
                        prefix.no_duplicates(),
                        forall|v: int| prefix.contains(v) ==> 0 <= v < 65536,
                        ({
                            let part = tag_ids(tag).take(id - range.min);
                            &&& (prefix + part).no_duplicates()
                            &&& forall|v: int| 0 <= v < 65536 ==> (#[trigger] seen@[v] <==> (prefix + part).contains(v))
                        }),
                    decreases range.max as u32 + 1 - id,
                {
                    let ghost part = tag_ids(tag).take(id - range.min);
                    let ghost next = tag_ids(tag).take(id + 1 - range.min);
                    proof {
                        assert(next =~= part.push(id as int));
                        assert(prefix + next =~= (prefix + part).push(id as int));
                    }
                    if seen[id as usize] {
                        proof {
                            let whole = tags_ids(tags@);
                            lemma_tags_ids_prefix(tags@, i as int + 1);
                            let pp = prefix + part;
                            let k = choose|k: int| 0 <= k < pp.len() && pp[k] == id as int;
                            let cur = tags_ids(tags@.take(i + 1));
                            assert(cur[k] == pp[k]);
                            assert(cur[pp.len() as int] == id as int);
                            assert(whole[k] == cur[k]);
                            assert(whole[pp.len() as int] == cur[pp.len() as int]);
                        }
                        return Err(NipartError::from_str_msg(
                            ErrorKind::InvalidArgument,
                            "Bridge VLAN trunk tag is overlapping with other tag",
                        ));
                    }
                    seen.set(id as usize, true);
                    proof {
                        let pp = prefix + part;
                        let np = pp.push(id as int);
                        assert forall|a: int, b: int| 0 <= a < np.len() && 0 <= b < np.len() && a != b
                            implies np[a] != np[b] by {
                            if a == pp.len() {
                                assert(!pp.contains(id as int));
                                assert(np[b] == pp[b]);
                            } else if b == pp.len() {
                                assert(!pp.contains(id as int));
                                assert(np[a] == pp[a]);
                            } else {
                                assert(np[a] == pp[a] && np[b] == pp[b]);
                            }
                        }
                        assert forall|v: int| 0 <= v < 65536 implies (#[trigger] seen@[v] <==> np.contains(v)) by {
                            if np.contains(v) && v != id as int {
                                let k = choose|k: int| 0 <= k < np.len() && np[k] == v;
                                assert(pp[k] == v);
                            }
                            if pp.contains(v) {
                                let k = choose|k: int| 0 <= k < pp.len() && pp[k] == v;
                                assert(np[k] == v);
                            }
                            if v == id as int {
                                assert(np[pp.len() as int] == v);
                            }
                        }
                        assert(prefix + next =~= np);
                    }
                    id += 1;
                }
                proof {
                    let part = tag_ids(tag).take(id - range.min);
                    assert(part =~= tag_ids(tag));
                    let next = prefix + part;
                    assert forall|v: int| next.contains(v) implies 0 <= v < 65536 by {
                        let k = choose|k: int| 0 <= k < next.len() && next[k] == v;
                        if k < prefix.len() {
                            assert(prefix.contains(v));
                        }
                    }
                }
            },
        }
        i += 1;
    }
    proof {
        assert(tags@.take(tags.len() as int) =~= tags@);
    }
    Ok(())
}

/// The IDs of a prefix of a tag list are a prefix of the IDs of the list.
proof fn lemma_tags_ids_prefix(tags: Seq<BridgeVlanTrunkTag>, n: int)
    requires
        0 <= n <= tags.len(),
    ensures
        tags_ids(tags.take(n)).len() <= tags_ids(tags).len(),
        forall|k: int| 0 <= k < tags_ids(tags.take(n)).len() ==> tags_ids(tags)[k] == #[trigger] tags_ids(tags.take(n))[k],
        tags_ids(tags.take(n)).no_duplicates() || !tags_ids(tags).no_duplicates(),
    decreases tags.len() - n,
{
    if n == tags.len() {
        assert(tags.take(n) =~= tags);
    } else {
        lemma_tags_ids_prefix(tags, n + 1);
        assert(tags.take(n + 1).drop_last() =~= tags.take(n));
        let a = tags_ids(tags.take(n));
        let b = tags_ids(tags.take(n + 1));
        assert(b == a + tag_ids(tags.take(n + 1).last()));
        assert forall|k: int| 0 <= k < a.len() implies tags_ids(tags)[k] == #[trigger] a[k] by {
            assert(b[k] == a[k]);
        }
        if !a.no_duplicates() {
            let (x, y) = choose|x: int, y: int| 0 <= x < a.len() && 0 <= y < a.len() && x != y && a[x] == a[y];
            assert(b[x] == b[y]);
        }
    }
}


/// Every VLAN ID a tag list expands to lies within one of its tags.
proof fn lemma_tags_ids_covered(tags: Seq<BridgeVlanTrunkTag>)
    ensures
        forall|v: int| #[trigger] tags_ids(tags).contains(v) ==> tags_cover(tags, v),
    decreases tags.len(),
{
    if tags.len() > 0 {
        let init = tags.drop_last();
        lemma_tags_ids_covered(init);
        assert forall|v: int| tags_ids(tags).contains(v) implies tags_cover(tags, v) by {
            let whole = tags_ids(tags);
            let a = tags_ids(init);
            assert(whole =~= a + tag_ids(tags[tags.len() - 1]));
            let k = choose|k: int| 0 <= k < whole.len() && whole[k] == v;
            if k < a.len() {
                assert(a[k] == v);
                assert(a.contains(v));
                assert(tags_cover(init, v));
                let j = choose|j: int| 0 <= j < init.len() && #[trigger] tag_covers(init[j], v);
                assert(tags[j] == init[j]);
            } else {
                assert(tag_covers(tags[tags.len() - 1], v));
            }
        }
    }
}

/// The VLAN IDs of a tag list, as the list of IDs it expands to.
pub fn expand_trunk_tags(tags: &Vec<BridgeVlanTrunkTag>) -> (r: Vec<u16>)
    requires
        tags_bounded(tags@),
    ensures
        r.len() == tags_ids(tags@).len(),
        forall|k: int| 0 <= k < r.len() ==> r@[k] as int == #[trigger] tags_ids(tags@)[k],
{
    let mut r: Vec<u16> = Vec::new();
    let mut i: usize = 0;
    while i < tags.len()
        invariant
            i <= tags.len(),
            tags_bounded(tags@),
            r.len() == tags_ids(tags@.take(i as int)).len(),
            forall|k: int| 0 <= k < r.len() ==> r@[k] as int == #[trigger] tags_ids(tags@.take(i as int))[k],
        decreases tags.len() - i,
    {
        let tag = tags[i];
        let ghost prefix = tags_ids(tags@.take(i as int));
        proof {
            assert(tags@.take(i + 1).drop_last() =~= tags@.take(i as int));
            assert(tags_ids(tags@.take(i + 1)) == prefix + tag_ids(tag));
            assert(tag_hi(tags@[i as int]) < 65535);
        }
        match tag {
            BridgeVlanTrunkTag::Id(d) => {
                r.push(d);
                proof {
                    let next = prefix + tag_ids(tag);
                    assert forall|k: int| 0 <= k < r.len() implies r@[k] as int == #[trigger] next[k] by {
                        if k < prefix.len() {
                        }
                    }
                }
            },
            BridgeVlanTrunkTag::IdRange(range) => {
                let mut id: u32 = range.min as u32;
                while id < range.max as u32 + 1
                    invariant
                        range.max < 65535,
                        tag == BridgeVlanTrunkTag::IdRange(range),
                        range.min <= id,
                        id <= range.max as u32 + 1 || range.min > range.max,
                        range.min > range.max ==> id == range.min,
                        r.len() == prefix.len() + (id - range.min),
                        forall|k: int| 0 <= k < r.len() ==> r@[k] as int == #[trigger] (prefix + tag_ids(tag).take(id - range.min))[k],
                    decreases range.max as u32 + 1 - id,
                {
                    let ghost before = r@;
                    r.push(id as u16);
                    proof {
                        let a = prefix + tag_ids(tag).take(id - range.min);
                        let b = prefix + tag_ids(tag).take(id + 1 - range.min);
                        assert(b =~= a.push(id as int));
                        assert forall|k: int| 0 <= k < r.len() implies r@[k] as int == #[trigger] b[k] by {
                            if k < before.len() {
                                assert(r@[k] == before[k]);
                                assert(b[k] == a[k]);
                            }
                        }
                    }
                    id += 1;
                }
                proof {
                    assert(tag_ids(tag).take(id - range.min) =~= tag_ids(tag));
                }
            },
        }
        i += 1;
    }
    proof {
        assert(tags@.take(tags.len() as int) =~= tags@);
    }
    r
}

/// Whether the first three sanitize rules already reject the configuration.
pub open spec fn vlan_conf_mode_error(c: BridgeVlanConfig) -> bool {
    ||| (c.mode == Some(BridgeVlanMode::Trunk) && c.tag is Some && c.tag != Some(0u16)
        && c.enable_native != Some(true))
    ||| (c.mode == Some(BridgeVlanMode::Access) && c.enable_native == Some(true))
    ||| (c.mode == Some(BridgeVlanMode::Access) && (c.trunk_tags matches Some(t) && t.len() > 0))
    ||| (c.mode == Some(BridgeVlanMode::Trunk) && c.trunk_tags is None)
}

/// Whether `sanitize` rejects the configuration.
pub open spec fn vlan_conf_invalid(c: BridgeVlanConfig) -> bool {
    ||| vlan_conf_mode_error(c)
    ||| (c.trunk_tags matches Some(t) && !tags_ids(t@).no_duplicates())
}

/// The mode after sanitize: trunk tags without a mode imply trunk mode.
pub open spec fn vlan_conf_sanitized_mode(c: BridgeVlanConfig) -> Option<BridgeVlanMode> {
    if !vlan_conf_mode_error(c) && c.trunk_tags is Some && c.mode is None {
        Some(BridgeVlanMode::Trunk)
    } else {
        c.mode
    }
}

/// The trunk tags are within the VLAN ID range that can be expanded.
pub open spec fn vlan_conf_bounded(c: BridgeVlanConfig) -> bool {
    c.trunk_tags matches Some(t) ==> tags_bounded(t@)
}

impl BridgeVlanConfig {
    /// Whether nothing is configured.
    pub fn is_empty(&self) -> (r: bool)
        ensures
            r == (self.enable_native is None && self.mode is None && self.tag is None
                && self.trunk_tags is None),
    {
        self.enable_native.is_none() && self.mode.is_none() && self.tag.is_none()
            && self.trunk_tags.is_none()
    }

    /// Replace the trunk tags by their canonical (compressed) form.
    pub fn compress_port_vlan_ranges(&mut self)
        requires
            vlan_conf_bounded(*old(self)),
        ensures
            final(self).enable_native == old(self).enable_native,
            final(self).mode == old(self).mode,
            final(self).tag == old(self).tag,
            old(self).trunk_tags is None ==> final(self).trunk_tags is None,
            old(self).trunk_tags matches Some(t) ==> final(self).trunk_tags matches Some(n) && {
                &&& tags_canonical(n@)
                &&& forall|v: int| tags_cover(n@, v) <==> tags_ids(t@).contains(v)
            },
            vlan_conf_bounded(*final(self)),
    {
        if let Some(trunk_tags) = &self.trunk_tags {
            let ids = expand_trunk_tags(trunk_tags);
            let ghost t = trunk_tags@;
            let new_tags = compress_vlan_ids(ids);
            proof {
                assert forall|v: int| tags_cover(new_tags@, v) <==> tags_ids(t).contains(v) by {
                    if tags_ids(t).contains(v) {
                        let k = choose|k: int| 0 <= k < tags_ids(t).len() && tags_ids(t)[k] == v;
                        assert(ids@[k] as int == v);
                        assert(ids@.contains(v as u16));
                        assert(0 <= v < 65536);
                    }
                    if ids@.contains(v as u16) && 0 <= v < 65536 {
                        let k = choose|k: int| 0 <= k < ids.len() && ids@[k] == v as u16;
                        assert(tags_ids(t)[k] == v);
                    }
                }
                assert forall|k: int| 0 <= k < new_tags@.len() implies tag_hi(#[trigger] new_tags@[k]) < 65535 by {
                    let hi = tag_hi(new_tags@[k]);
                    assert(tag_covers(new_tags@[k], hi));
                    assert(tags_cover(new_tags@, hi));
                    assert(tags_ids(t).contains(hi));
                    lemma_tags_ids_covered(t);
                    assert(tags_cover(t, hi));
                    let j = choose|j: int| 0 <= j < t.len() && #[trigger] tag_covers(t[j], hi);
                    assert(tag_hi(t[j]) < 65535);
                }
            }
            self.trunk_tags = Some(new_tags);
        }
    }

    /// Validate the configuration and fill in the implied trunk mode.
    /// Rejected: a native `tag` in trunk mode without `enable-native`,
    /// `enable-native` in access mode, trunk tags in access mode, trunk mode
    /// without trunk tags, and trunk tags that name a VLAN ID twice.
    pub fn sanitize(&mut self) -> (r: Result<(), NipartError>)
        requires
            vlan_conf_bounded(*old(self)),
        ensures
            r is Err <==> vlan_conf_invalid(*old(self)),
            r matches Err(e) ==> e.kind == ErrorKind::InvalidArgument,
            final(self).mode == vlan_conf_sanitized_mode(*old(self)),
            final(self).enable_native == old(self).enable_native,
            final(self).tag == old(self).tag,
            final(self).trunk_tags == old(self).trunk_tags,
    {
        if matches!(self.mode, Some(BridgeVlanMode::Trunk)) && self.tag.is_some()
            && !matches!(self.tag, Some(0)) && !matches!(self.enable_native, Some(true))
        {
            return Err(NipartError::from_str_msg(
                ErrorKind::InvalidArgument,
                "Bridge VLAN filtering `tag` cannot be use in trunk mode without `enable-native`",
            ));
        }
        if matches!(self.mode, Some(BridgeVlanMode::Access)) && matches!(self.enable_native, Some(true)) {
            return Err(NipartError::from_str_msg(
                ErrorKind::InvalidArgument,
                "Bridge VLAN filtering `enable-native: true` cannot be set in access mode",
            ));
        }
        if matches!(self.mode, Some(BridgeVlanMode::Access)) {
            if let Some(tags) = self.trunk_tags.as_ref() {
                if tags.len() > 0 {
                    return Err(NipartError::from_str_msg(
                        ErrorKind::InvalidArgument,
                        "Bridge VLAN filtering access mode cannot have trunk-tags defined",
                    ));
                }
            }
        }
        if matches!(self.mode, Some(BridgeVlanMode::Trunk)) && self.trunk_tags.is_none() {
            return Err(NipartError::from_str_msg(
                ErrorKind::InvalidArgument,
                "Bridge VLAN filtering trunk mode cannot have empty trunk-tags",
            ));
        }
        if self.trunk_tags.is_some() {
            if self.mode.is_none() {
                self.mode = Some(BridgeVlanMode::Trunk);
            }
            if let Some(tags) = self.trunk_tags.as_ref() {
                validate_overlap_trunk_tags(tags)?;
            }
        }
        Ok(())
    }
}


/// A VLAN ID is among the IDs a tag list expands to exactly when one of its
/// tags stands for it.
pub proof fn lemma_tags_ids_iff_cover(tags: Seq<BridgeVlanTrunkTag>)
    ensures
        forall|v: int| #[trigger] tags_ids(tags).contains(v) <==> tags_cover(tags, v),
    decreases tags.len(),
{
    lemma_tags_ids_covered(tags);
    if tags.len() > 0 {
        let init = tags.drop_last();
        lemma_tags_ids_iff_cover(init);
        let whole = tags_ids(tags);
        let a = tags_ids(init);
        let last = tags[tags.len() - 1];
        assert(whole =~= a + tag_ids(last));
        assert forall|v: int| tags_cover(tags, v) implies #[trigger] tags_ids(tags).contains(v) by {
            let j = choose|j: int| 0 <= j < tags.len() && #[trigger] tag_covers(tags[j], v);
            if j < init.len() {
                assert(tag_covers(init[j], v));
                assert(tags_cover(init, v));
                assert(a.contains(v));
                let k = choose|k: int| 0 <= k < a.len() && a[k] == v;
                assert(whole[k] == v);
            } else {
                let k = v - tag_lo(last);
                assert(tag_ids(last)[k] == v);
                assert(whole[a.len() + k] == v);
            }
        }
    }
}

/// Dropping the first tag of a canonical list leaves the IDs above it.
proof fn lemma_canonical_rest(a: Seq<BridgeVlanTrunkTag>, v: int)
    requires
        tags_canonical(a),
        a.len() > 0,
    ensures
        tags_canonical(a.drop_first()),
        tags_cover(a.drop_first(), v) <==> (tags_cover(a, v) && v > tag_hi(a[0])),
{
    let r = a.drop_first();
    assert forall|x: int, y: int| 0 <= x < y < r.len() implies tag_hi(#[trigger] r[x]) + 1 < tag_lo(
        #[trigger] r[y],
    ) by {
        assert(r[x] == a[x + 1] && r[y] == a[y + 1]);
    }
    assert forall|k: int| 0 <= k < r.len() implies tag_well_shaped(#[trigger] r[k]) by {
        assert(r[k] == a[k + 1]);
    }
    if tags_cover(r, v) {
        let k = choose|k: int| 0 <= k < r.len() && #[trigger] tag_covers(r[k], v);
        assert(r[k] == a[k + 1]);
        assert(tag_covers(a[k + 1], v));
        assert(tag_hi(a[0]) + 1 < tag_lo(a[k + 1]));
    }
    if tags_cover(a, v) && v > tag_hi(a[0]) {
        let k = choose|k: int| 0 <= k < a.len() && #[trigger] tag_covers(a[k], v);
        assert(k != 0);
        assert(r[k - 1] == a[k]);
        assert(tag_covers(r[k - 1], v));
    }
}

/// A canonical tag list is determined by the set of VLAN IDs it stands for:
/// two canonical lists that stand for the same IDs are equal.
pub proof fn lemma_canonical_tags_unique(a: Seq<BridgeVlanTrunkTag>, b: Seq<BridgeVlanTrunkTag>)
    requires
        tags_canonical(a),
        tags_canonical(b),
        forall|v: int| tags_cover(a, v) <==> tags_cover(b, v),
    ensures
        a == b,
    decreases a.len() + b.len(),
{
    if a.len() == 0 && b.len() == 0 {
        assert(a =~= b);
    } else if a.len() == 0 {
        assert(tag_covers(b[0], tag_lo(b[0])));
        assert(tags_cover(b, tag_lo(b[0])));
    } else if b.len() == 0 {
        assert(tag_covers(a[0], tag_lo(a[0])));
        assert(tags_cover(a, tag_lo(a[0])));
    } else {
        let a0 = a[0];
        let b0 = b[0];
        assert(tag_covers(a0, tag_lo(a0)));
        assert(tags_cover(a, tag_lo(a0)));
        assert(tag_covers(b0, tag_lo(b0)));
        assert(tags_cover(b, tag_lo(b0)));
        // Both lists start at the lowest ID they stand for.
        assert(tag_lo(a0) == tag_lo(b0)) by {
            let ka = choose|k: int| 0 <= k < a.len() && #[trigger] tag_covers(a[k], tag_lo(b0));
            let kb = choose|k: int| 0 <= k < b.len() && #[trigger] tag_covers(b[k], tag_lo(a0));
            if ka > 0 {
                assert(tag_hi(a[0]) + 1 < tag_lo(a[ka]));
            }
            if kb > 0 {
                assert(tag_hi(b[0]) + 1 < tag_lo(b[kb]));
            }
        }
        // And their first runs end at the same ID.
        assert(tag_hi(a0) == tag_hi(b0)) by {
            if tag_hi(a0) < tag_hi(b0) {
                let v = tag_hi(a0) + 1;
                assert(tag_covers(b0, v));
                assert(tags_cover(b, v));
                let k = choose|k: int| 0 <= k < a.len() && #[trigger] tag_covers(a[k], v);
                if k > 0 {
                    assert(tag_hi(a[0]) + 1 < tag_lo(a[k]));
                }
            } else if tag_hi(b0) < tag_hi(a0) {
                let v = tag_hi(b0) + 1;
                assert(tag_covers(a0, v));
                assert(tags_cover(a, v));
                let k = choose|k: int| 0 <= k < b.len() && #[trigger] tag_covers(b[k], v);
                if k > 0 {
                    assert(tag_hi(b[0]) + 1 < tag_lo(b[k]));
                }
            }
        }
        assert(a0 == b0) by {
            assert(tag_well_shaped(a0));
            assert(tag_well_shaped(b0));
        }
        let ra = a.drop_first();
        let rb = b.drop_first();
        assert forall|v: int| tags_cover(ra, v) <==> tags_cover(rb, v) by {
            lemma_canonical_rest(a, v);
            lemma_canonical_rest(b, v);
        }
        lemma_canonical_rest(a, 0);
        lemma_canonical_rest(b, 0);
        lemma_canonical_tags_unique(ra, rb);
        assert(a =~= seq![a0] + ra);
        assert(b =~= seq![b0] + rb);
    }
}

/// Compressing the trunk tags is idempotent: compressing the canonical list
/// that one compression gave yields that same list again.
pub proof fn lemma_compress_idempotent(
    t: Seq<BridgeVlanTrunkTag>,
    n: Seq<BridgeVlanTrunkTag>,
    n2: Seq<BridgeVlanTrunkTag>,
)
    requires
        tags_canonical(n),
        forall|v: int| tags_cover(n, v) <==> tags_ids(t).contains(v),
        tags_canonical(n2),
        forall|v: int| tags_cover(n2, v) <==> tags_ids(n).contains(v),
    ensures
        n2 == n,
{
    lemma_tags_ids_iff_cover(n);
    assert forall|v: int| tags_cover(n2, v) <==> tags_cover(n, v) by {
        assert(tags_ids(n).contains(v) <==> tags_cover(n, v));
    }
    lemma_canonical_tags_unique(n2, n);
}

} // verus!

verus! {

/// Model of [BridgeVlanConfig]: its fields, the trunk tags as a sequence.
pub struct BridgeVlanConfigView {
    pub enable_native: Option<bool>,
    pub mode: Option<BridgeVlanMode>,
    pub tag: Option<u16>,
    pub trunk_tags: Option<Seq<BridgeVlanTrunkTag>>,
}

impl View for BridgeVlanConfig {
    type V = BridgeVlanConfigView;

    open spec fn view(&self) -> BridgeVlanConfigView {
        BridgeVlanConfigView {
            enable_native: self.enable_native,
            mode: self.mode,
            tag: self.tag,
            trunk_tags: crate::text::opt_vec_view(self.trunk_tags),
        }
    }
}

/// Model of an optional bridge VLAN configuration.
pub open spec fn opt_bridge_vlan_view(o: Option<BridgeVlanConfig>) -> Option<BridgeVlanConfigView> {
    match o {
        Some(v) => Some(v@),
        None => None,
    }
}

impl BridgeVlanConfig {
    /// A copy of the configuration.
    pub fn duplicate(&self) -> (r: Self)
        ensures
            r@ == self@,
    {
        BridgeVlanConfig {
            enable_native: self.enable_native,
            mode: self.mode,
            tag: self.tag,
            trunk_tags: match &self.trunk_tags {
                None => None,
                Some(t) => {
                    let c = t.clone();
                    proof {
                        assert(c@ =~= t@);
                    }
                    Some(c)
                },
            },
        }
    }

    /// Whether both configurations are the same.
    pub fn same_as(&self, other: &Self) -> (r: bool)
        ensures
            r == (self@ == other@),
    {
        if self.enable_native != other.enable_native || self.mode != other.mode || self.tag != other.tag {
            return false;
        }
        match (&self.trunk_tags, &other.trunk_tags) {
            (None, None) => true,
            (Some(a), Some(b)) => {
                if a.len() != b.len() {
                    return false;
                }
                let mut i: usize = 0;
                while i < a.len()
                    invariant
                        i <= a.len() == b.len(),
                        self@.trunk_tags == Some(a@),
                        other@.trunk_tags == Some(b@),
                        forall|k: int| 0 <= k < i ==> a@[k] == b@[k],
                    decreases a.len() - i,
                {
                    if a[i] != b[i] {
                        return false;
                    }
                    i += 1;
                }
                proof {
                    assert(a@ =~= b@);
                }
                true
            },
            _ => false,
        }
    }

    /// This configuration with properties left undefined taken from `prev`.
    pub fn merged_over(&self, prev: &Self) -> (r: Self)
        ensures
            r@ == (BridgeVlanConfigView {
                enable_native: crate::nmstate::iface_ip::or_else(self.enable_native, prev.enable_native),
                mode: crate::nmstate::iface_ip::or_else(self.mode, prev.mode),
                tag: crate::nmstate::iface_ip::or_else(self.tag, prev.tag),
                trunk_tags: crate::nmstate::iface_ip::or_else(self@.trunk_tags, prev@.trunk_tags),
            }),
    {
        let src = if self.trunk_tags.is_some() { self.duplicate() } else { prev.duplicate() };
        BridgeVlanConfig {
            enable_native: if self.enable_native.is_some() { self.enable_native } else { prev.enable_native },
            mode: if self.mode.is_some() { self.mode } else { prev.mode },
            tag: if self.tag.is_some() { self.tag } else { prev.tag },
            trunk_tags: src.trunk_tags,
        }
    }
}

} // verus!
