use win_security_identifier::parsing::{format_sid, InvalidSidFormat, SidComponents};
use win_security_identifier::security_identifier::SecurityIdentifier;
use win_security_identifier::sid_identifier_authority::SidIdentifierAuthority;
use win_security_identifier::stack_sid::StackSid;

fn parts(text: &str) -> Option<([u8; 6], Vec<u32>)> {
    match SidComponents::from_str(text) {
        Ok(c) => Some((c.identifier_authority, c.sub_authority.as_slice().to_vec())),
        Err(InvalidSidFormat) => None,
    }
}

#[test]
fn reads_the_administrators() {
    assert_eq!(
        parts("S-1-5-32-544"),
        Some(([0, 0, 0, 0, 0, 5], vec![32, 544]))
    );
}

#[test]
fn the_leading_letter_may_be_small() {
    assert_eq!(
        parts("s-1-5-32-544"),
        Some(([0, 0, 0, 0, 0, 5], vec![32, 544]))
    );
}

#[test]
fn refuses_another_revision() {
    assert_eq!(parts("S-2-5-32-544"), None);
    assert_eq!(parts("S-0-5-32-544"), None);
    assert_eq!(parts("S-256-5-32-544"), None);
    assert_eq!(parts("S--5-32-544"), None);
}

#[test]
fn refuses_a_text_without_sub_authorities() {
    assert_eq!(parts("S-1-5"), None);
    assert_eq!(parts("S-1"), None);
    assert_eq!(parts("S"), None);
    assert_eq!(parts(""), None);
}

#[test]
fn refuses_a_wrong_head() {
    assert_eq!(parts("X-1-5-32"), None);
    assert_eq!(parts("SS-1-5-32"), None);
    assert_eq!(parts("-1-5-32"), None);
    assert_eq!(parts("1-5-32-544"), None);
    assert_eq!(parts(" S-1-5-32"), None);
}

#[test]
fn refuses_misplaced_dashes() {
    assert_eq!(parts("S-1-5-32-"), None);
    assert_eq!(parts("S-1-5--32"), None);
    assert_eq!(parts("S-1-5-32--544"), None);
    assert_eq!(parts("-S-1-5-32"), None);
    assert_eq!(parts("S-1-5-"), None);
}

#[test]
fn refuses_what_is_no_number() {
    assert_eq!(parts("S-1-5-3a"), None);
    assert_eq!(parts("S-1-x-32"), None);
    assert_eq!(parts("S-1-5-32 "), None);
    assert_eq!(parts("S-1-0x5-32"), None);
    assert_eq!(parts("S-1-5-+"), None);
    assert_eq!(parts("S-1-5-3+2"), None);
    assert_eq!(parts("S-1-5-++2"), None);
    assert_eq!(parts("S-1-5-\u{663}"), None);
    assert_eq!(parts("S-1-5-32\u{e9}"), None);
}

#[test]
fn a_number_may_carry_a_plus_and_zeros() {
    assert_eq!(
        parts("S-+1-+5-+32-0544"),
        Some(([0, 0, 0, 0, 0, 5], vec![32, 544]))
    );
    assert_eq!(
        parts("S-001-000000000000000000000005-00000000000000000000000000032"),
        Some(([0, 0, 0, 0, 0, 5], vec![32]))
    );
    assert_eq!(parts("S-1-0-0"), Some(([0; 6], vec![0])));
}

#[test]
fn sub_authorities_are_32_bits_wide() {
    assert_eq!(
        parts("S-1-5-4294967295"),
        Some(([0, 0, 0, 0, 0, 5], vec![u32::MAX]))
    );
    assert_eq!(parts("S-1-5-4294967296"), None);
    assert_eq!(parts("S-1-5-99999999999999999999999"), None);
}

#[test]
fn the_authority_keeps_its_low_six_bytes() {
    assert_eq!(
        parts("S-1-4294967296-1"),
        Some(([0, 1, 0, 0, 0, 0], vec![1]))
    );
    assert_eq!(
        parts("S-1-281474976710655-1"),
        Some(([255; 6], vec![1]))
    );
    assert_eq!(parts("S-1-281474976710656-1"), Some(([0; 6], vec![1])));
    assert_eq!(
        parts("S-1-18446744073709551615-1"),
        Some(([255; 6], vec![1]))
    );
    assert_eq!(parts("S-1-18446744073709551616-1"), None);
    assert_eq!(
        parts("S-1-1108152157446-7"),
        Some(([1, 2, 3, 4, 5, 6], vec![7]))
    );
}

#[test]
fn at_most_fifteen_sub_authorities() {
    let fifteen = "S-1-5-1-2-3-4-5-6-7-8-9-10-11-12-13-14-15";
    assert_eq!(
        parts(fifteen),
        Some((
            [0, 0, 0, 0, 0, 5],
            vec![1, 2, 3, 4, 5, 6, 7, 8, 9, 10, 11, 12, 13, 14, 15]
        ))
    );
    let sixteen = "S-1-5-1-2-3-4-5-6-7-8-9-10-11-12-13-14-15-16";
    assert_eq!(parts(sixteen), None);
    let many = "S-1-5-1-2-3-4-5-6-7-8-9-10-11-12-13-14-15-16-17-18-19-20-21-22";
    assert_eq!(parts(many), None);
}

#[test]
fn writes_decimal_numbers() {
    let nt = SidIdentifierAuthority::nt_authority();
    assert_eq!(format_sid(1, &nt, &[32, 544]), "S-1-5-32-544");
    assert_eq!(format_sid(1, &nt, &[0]), "S-1-5-0");
    assert_eq!(format_sid(1, &nt, &[u32::MAX, 10, 100]), "S-1-5-4294967295-10-100");
    assert_eq!(
        format_sid(1, &SidIdentifierAuthority::new([0, 0, 255, 255, 255, 255]), &[9]),
        "S-1-4294967295-9"
    );
    assert_eq!(format_sid(1, &SidIdentifierAuthority::null_authority(), &[0]), "S-1-0-0");
}

#[test]
fn writes_a_large_authority_in_hexadecimal() {
    assert_eq!(
        format_sid(1, &SidIdentifierAuthority::new([0, 1, 0, 0, 0, 0]), &[1]),
        "S-1-0x100000000-1"
    );
    assert_eq!(
        format_sid(1, &SidIdentifierAuthority::new([0xab, 0xcd, 0xef, 0x01, 0x23, 0x45]), &[7, 8]),
        "S-1-0xABCDEF012345-7-8"
    );
    assert_eq!(
        format_sid(1, &SidIdentifierAuthority::new([255; 6]), &[1]),
        "S-1-0xFFFFFFFFFFFF-1"
    );
}

#[test]
fn text_written_is_read_back() {
    let authorities = [
        [0u8, 0, 0, 0, 0, 0],
        [0, 0, 0, 0, 0, 5],
        [0, 0, 0, 0, 1, 0],
        [0, 0, 1, 2, 3, 4],
        [0, 0, 255, 255, 255, 255],
    ];
    let subs: Vec<u32> = vec![0, 1, 9, 10, 99, 100, 544, 65535, 65536, 1 << 31, u32::MAX, 7, 8, 21, 42];
    for authority in authorities {
        for count in 1..=15 {
            let sid = SecurityIdentifier::try_new(
                SidIdentifierAuthority::new(authority),
                &subs[..count],
            )
            .unwrap();
            let text = sid.to_string();
            let back: SecurityIdentifier = text.parse().unwrap();
            assert_eq!(back, sid);
            assert_eq!(back.to_string(), text);
            let inline: StackSid = text.parse().unwrap();
            assert!(inline == sid);
        }
    }
}

#[test]
fn a_hexadecimal_authority_is_not_read_back() {
    let sid = SecurityIdentifier::try_new(SidIdentifierAuthority::new([1, 0, 0, 0, 0, 0]), &[1])
        .unwrap();
    assert_eq!(sid.to_string(), "S-1-0x10000000000-1");
    assert_eq!(
        SecurityIdentifier::from_str(&sid.to_string()).err(),
        Some(InvalidSidFormat)
    );
}

#[test]
fn the_error_says_what_it_is() {
    assert_eq!(InvalidSidFormat.to_string(), "Invalid format for Sid");
}
