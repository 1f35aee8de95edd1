use std::cmp::Ordering;
use win_security_identifier::sid_identifier_authority::SidIdentifierAuthority;

#[test]
fn well_known_authorities() {
    assert_eq!(SidIdentifierAuthority::null_authority().value, [0, 0, 0, 0, 0, 0]);
    assert_eq!(SidIdentifierAuthority::security_world_authority().value, [0, 0, 0, 0, 0, 1]);
    assert_eq!(SidIdentifierAuthority::security_local_authority().value, [0, 0, 0, 0, 0, 2]);
    assert_eq!(SidIdentifierAuthority::security_creator_authority().value, [0, 0, 0, 0, 0, 3]);
    assert_eq!(SidIdentifierAuthority::security_non_unique_authority().value, [0, 0, 0, 0, 0, 4]);
    assert_eq!(SidIdentifierAuthority::nt_authority().value, [0, 0, 0, 0, 0, 5]);
    assert_eq!(
        SidIdentifierAuthority::security_resource_manager_authority().value,
        [0, 0, 0, 0, 0, 9]
    );
    assert_eq!(SidIdentifierAuthority::default(), SidIdentifierAuthority::null_authority());
}

#[test]
fn the_number_reads_the_bytes_most_significant_first() {
    assert_eq!(SidIdentifierAuthority::new([0, 0, 0, 0, 0, 5]).number(), 5);
    assert_eq!(SidIdentifierAuthority::new([0, 0, 0, 0, 1, 0]).number(), 256);
    assert_eq!(
        SidIdentifierAuthority::new([1, 2, 3, 4, 5, 6]).number(),
        0x0102_0304_0506
    );
    assert_eq!(SidIdentifierAuthority::new([255; 6]).number(), 0xffff_ffff_ffff);
    assert_eq!(SidIdentifierAuthority::from_number(0x0102_0304_0506).value, [1, 2, 3, 4, 5, 6]);
    assert_eq!(SidIdentifierAuthority::from_number(u64::MAX).value, [255; 6]);
    assert_eq!(SidIdentifierAuthority::from_number(1 << 48).value, [0; 6]);
}

#[test]
fn conversions_keep_the_bytes() {
    let bytes = [1u8, 2, 3, 4, 5, 6];
    let authority = SidIdentifierAuthority::from(bytes);
    assert_eq!(authority, SidIdentifierAuthority::new(bytes));
    let back: [u8; 6] = authority.into();
    assert_eq!(back, bytes);
}

#[test]
fn authorities_are_ordered_bytewise() {
    let small = SidIdentifierAuthority::new([0, 0, 0, 0, 0, 5]);
    let middle = SidIdentifierAuthority::new([0, 0, 0, 0, 1, 0]);
    let large = SidIdentifierAuthority::new([1, 0, 0, 0, 0, 0]);
    assert!(small < middle && middle < large && small < large);
    assert!(large > small);
    assert_eq!(small.partial_cmp(&small), Some(Ordering::Equal));
    assert_eq!(small.partial_cmp(&large), Some(Ordering::Less));
    assert_eq!(large.partial_cmp(&middle), Some(Ordering::Greater));
    assert_eq!(small.cmp(&large), Ordering::Less);
    assert_eq!(small.cmp(&large), small.value.cmp(&large.value));
    assert_ne!(small, middle);
}
