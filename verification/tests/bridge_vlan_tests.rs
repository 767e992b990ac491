use nipart::{compress_vlan_ids, validate_overlap_trunk_tags, BridgeVlanRange, BridgeVlanTrunkTag, ErrorKind};

#[test]
fn test_compress_bridge_vlan_ids() {
    let vids = vec![11u16, 1, 2, 3, 4, 9, 10, 20, 25, 26];
    assert_eq!(
        compress_vlan_ids(vids),
        vec![
            BridgeVlanTrunkTag::IdRange(BridgeVlanRange::new(1, 4)),
            BridgeVlanTrunkTag::IdRange(BridgeVlanRange::new(9, 11)),
            BridgeVlanTrunkTag::Id(20),
            BridgeVlanTrunkTag::IdRange(BridgeVlanRange::new(25, 26))
        ],
    )
}

#[test]
fn compress_empty_and_duplicates() {
    assert_eq!(compress_vlan_ids(vec![]), vec![]);
    assert_eq!(compress_vlan_ids(vec![7, 7, 7]), vec![BridgeVlanTrunkTag::Id(7)]);
}

#[test]
fn compress_is_idempotent_on_expanded_ids() {
    let first = compress_vlan_ids(vec![5, 3, 4, 100, 101, 200]);
    let mut ids: Vec<u16> = Vec::new();
    for t in &first {
        match t {
            BridgeVlanTrunkTag::Id(v) => ids.push(*v),
            BridgeVlanTrunkTag::IdRange(r) => {
                for v in r.min..=r.max {
                    ids.push(v);
                }
            }
            _ => {}
        }
    }
    assert_eq!(compress_vlan_ids(ids), first);
}

#[test]
fn overlapping_trunk_tags_are_refused() {
    let tags = vec![
        BridgeVlanTrunkTag::IdRange(BridgeVlanRange::new(10, 20)),
        BridgeVlanTrunkTag::Id(15),
    ];
    let e = validate_overlap_trunk_tags(&tags).unwrap_err();
    assert_eq!(e.kind(), ErrorKind::InvalidArgument);
    let ok = vec![BridgeVlanTrunkTag::Id(1), BridgeVlanTrunkTag::IdRange(BridgeVlanRange::new(2, 3))];
    assert!(validate_overlap_trunk_tags(&ok).is_ok());
}

#[test]
fn trunk_tag_display_text() {
    assert_eq!(BridgeVlanTrunkTag::Id(100).to_display_string(), "id=100");
    assert_eq!(BridgeVlanTrunkTag::IdRange(BridgeVlanRange::new(2, 4094)).to_display_string(), "id-range=[2,4094]");
}
