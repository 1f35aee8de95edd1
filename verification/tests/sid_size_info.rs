use win_security_identifier::sid_size_info::{
    SidSizeInfo, SID_HEAD_ALIGN, SID_HEAD_SIZE, SUB_AUTHORITY_SIZE,
};

#[test]
fn layout_is_the_header_and_four_bytes_each() {
    for count in 1u8..=15 {
        let info = SidSizeInfo::from_count(count).unwrap();
        assert_eq!(info.get_sub_authority_count(), count);
        let layout = info.get_layout();
        assert_eq!(layout.size(), 8 + 4 * count as usize);
        assert_eq!(layout.align(), 4);
        assert_eq!(layout.size() % layout.align(), 0);
        assert_eq!(info.get_full_size(), layout.size());
    }
}

#[test]
fn the_size_gives_the_count_back() {
    for count in 1u8..=15 {
        let info = SidSizeInfo::from_count(count).unwrap();
        let size = info.get_layout().size();
        assert_eq!(SidSizeInfo::from_full_size(size), Some(info));
        assert_eq!(SidSizeInfo::from_full_size(size), SidSizeInfo::from_count(count));
    }
}

#[test]
fn counts_out_of_range_are_refused() {
    assert_eq!(SidSizeInfo::from_count(0), None);
    assert_eq!(SidSizeInfo::from_count(16), None);
    for count in 16u8..=255 {
        assert!(SidSizeInfo::from_count(count).is_none());
    }
}

#[test]
fn other_sizes_are_refused() {
    let valid: Vec<usize> = (1usize..=15).map(|count| 8 + 4 * count).collect();
    for size in 0usize..=300 {
        let info = SidSizeInfo::from_full_size(size);
        assert_eq!(info.is_some(), valid.contains(&size));
    }
    assert_eq!(SidSizeInfo::from_full_size(8), None);
    assert_eq!(SidSizeInfo::from_full_size(11), None);
    assert_eq!(SidSizeInfo::from_full_size(13), None);
    assert_eq!(SidSizeInfo::from_full_size(72), None);
    assert_eq!(SidSizeInfo::from_full_size(usize::MAX), None);
}

#[test]
fn the_smallest_and_the_largest() {
    assert_eq!(SidSizeInfo::smallest().get_layout().size(), 12);
    assert_eq!(SidSizeInfo::largest().get_layout().size(), 68);
    assert_eq!(SidSizeInfo::smallest(), SidSizeInfo::from_count(1).unwrap());
    assert_eq!(SidSizeInfo::largest(), SidSizeInfo::from_count(15).unwrap());
    assert!(SidSizeInfo::smallest() < SidSizeInfo::largest());
    assert_eq!((SID_HEAD_SIZE, SID_HEAD_ALIGN, SUB_AUTHORITY_SIZE), (8, 4, 4));
}
