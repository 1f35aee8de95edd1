use win_security_identifier::parsing::InvalidSidFormat;
use win_security_identifier::sid_size_info::SidSizeInfo;
use win_security_identifier::utils::{
    sub_authority_size_guard, validate_sid_bytes_unaligned, MAX_SUBAUTHORITY_COUNT,
    MIN_SUBAUTHORITY_COUNT,
};

const MIN_SIZE: usize = 12;
const REVISION_OFFSET: usize = 0;
const COUNT_OFFSET: usize = 1;

fn make_sid_bytes(count: u8) -> Vec<u8> {
    assert!(
        sub_authority_size_guard(count as usize),
        "Invalid count for make_sid_bytes()"
    );
    let layout = SidSizeInfo::from_count(count).expect("valid count").get_layout();
    let mut buf = vec![0u8; layout.size()];
    buf[REVISION_OFFSET] = 1;
    buf[COUNT_OFFSET] = count;
    buf
}

#[test]
fn rejects_too_small_buffer() {
    for len in 0..MIN_SIZE {
        let mut buf = vec![0u8; len];
        if let Some(first) = buf.first_mut() {
            *first = 1;
        }
        assert_eq!(validate_sid_bytes_unaligned(&buf), Err(InvalidSidFormat));
    }
}

#[test]
fn rejects_zero_sub_authority() {
    let mut buf = make_sid_bytes(1);
    buf[COUNT_OFFSET] = 0;
    assert_eq!(validate_sid_bytes_unaligned(&buf), Err(InvalidSidFormat));
}

#[test]
fn rejects_excessive_sub_authority() {
    let mut buf = vec![0u8; MIN_SIZE];
    buf[COUNT_OFFSET] = MAX_SUBAUTHORITY_COUNT + 1;
    assert_eq!(validate_sid_bytes_unaligned(&buf), Err(InvalidSidFormat));
}

#[test]
fn rejects_wrong_size_for_count() {
    let mut buf = make_sid_bytes(1);
    buf[COUNT_OFFSET] = 2;
    assert_eq!(validate_sid_bytes_unaligned(&buf), Err(InvalidSidFormat));
}

#[test]
fn accepts_all_valid_counts() {
    for count in MIN_SUBAUTHORITY_COUNT..=MAX_SUBAUTHORITY_COUNT {
        let buf = make_sid_bytes(count);
        assert_eq!(validate_sid_bytes_unaligned(&buf), Ok(()));
    }
}

#[test]
fn rejects_wrong_revision() {
    for revision in [0u8, 2, 3, 255] {
        let mut buf = make_sid_bytes(3);
        buf[REVISION_OFFSET] = revision;
        assert_eq!(validate_sid_bytes_unaligned(&buf), Err(InvalidSidFormat));
    }
}

#[test]
fn rejects_any_other_length() {
    for count in MIN_SUBAUTHORITY_COUNT..=MAX_SUBAUTHORITY_COUNT {
        for extra in 1usize..8 {
            let mut longer = make_sid_bytes(count);
            longer.extend(std::iter::repeat(0u8).take(extra));
            assert_eq!(validate_sid_bytes_unaligned(&longer), Err(InvalidSidFormat));
            let mut shorter = make_sid_bytes(count);
            shorter.truncate(shorter.len() - extra);
            assert_eq!(validate_sid_bytes_unaligned(&shorter), Err(InvalidSidFormat));
        }
    }
}

#[test]
fn guard_accepts_one_to_fifteen() {
    assert!(!sub_authority_size_guard(0));
    for count in 1usize..=15 {
        assert!(sub_authority_size_guard(count));
    }
    assert!(!sub_authority_size_guard(16));
    assert!(!sub_authority_size_guard(usize::MAX));
}
