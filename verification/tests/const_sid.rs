use std::collections::hash_map::DefaultHasher;
use std::hash::Hasher;
use win_security_identifier::const_sid::{ConstSid, LengthMismatch};
use win_security_identifier::parsing::SidComponents;
use win_security_identifier::security_identifier::SecurityIdentifier;
use win_security_identifier::sid::Sid;
use win_security_identifier::sid_identifier_authority::SidIdentifierAuthority;
use win_security_identifier::sid_size_info::SidSizeInfo;
use win_security_identifier::well_known;

#[test]
fn test_hash() {
    let sid = well_known::local_system();
    let mut hasher1 = DefaultHasher::default();
    let mut hasher2 = DefaultHasher::default();
    sid.hash(&mut hasher1);
    sid.as_sid().hash(&mut hasher2);
    assert_eq!(hasher1.finish(), hasher2.finish());
}

#[test]
fn test_layout_matches_sid() {
    let size = SidSizeInfo::from_count(1).unwrap();
    let layout = size.get_layout();
    let native = std::alloc::Layout::new::<ConstSid<1>>();
    assert_eq!((native.size(), native.align()), (layout.size(), layout.align()));
}

#[test]
fn test_parsing() {
    let components: SidComponents = "S-1-5-32-544".parse().unwrap();
    let sub_authority: [u32; 2] = components.sub_authority.as_slice().try_into().unwrap();
    let sid = ConstSid::new(components.identifier_authority.into(), sub_authority);
    let expected_sid = well_known::builtin_administrators();
    assert_eq!(sid, expected_sid);
}

#[test]
fn test_display_and_eq() {
    let formatted = "S-1-5-32-544";
    let expected_sid: SecurityIdentifier = formatted.parse().unwrap();
    let sid = well_known::builtin_administrators();
    assert_eq!(sid, expected_sid);
    assert_eq!(sid.to_string(), formatted);
}

#[test]
fn test_try_from_sid_and_security_identifier() {
    let sid = ConstSid::new(SidIdentifierAuthority::nt_authority(), [21, 42]);
    let owned: SecurityIdentifier = sid.into();
    let sid2 = ConstSid::<2>::try_from(owned.as_sid()).unwrap();
    assert_eq!(sid, sid2);
}

#[test]
fn test_invalid_try_from() {
    let sid = ConstSid::new(SidIdentifierAuthority::nt_authority(), [21, 42, 99]);
    let owned: SecurityIdentifier = sid.into();
    assert!(ConstSid::<2>::try_from(owned.as_sid()).is_err());
}

#[test]
fn test_const_sid_macro() {
    let sid = ConstSid::new(SidIdentifierAuthority::nt_authority(), [32, 544]);
    assert_eq!(sid.revision(), Sid::REVISION);
    assert_eq!(sid.identifier_authority(), SidIdentifierAuthority::nt_authority());
    assert_eq!(sid.sub_authority(), [32, 544]);
}

#[test]
fn administrators_in_every_form() {
    let owned =
        SecurityIdentifier::try_new(SidIdentifierAuthority::nt_authority(), &[32, 544]).unwrap();
    assert_eq!(owned.to_string(), "S-1-5-32-544");
    assert_eq!(
        owned.as_binary(),
        vec![1, 2, 0, 0, 0, 0, 0, 5, 32, 0, 0, 0, 32, 2, 0, 0]
    );
    assert_eq!(owned.as_binary().len(), 16);
    let two = ConstSid::<2>::try_from(owned.as_sid());
    assert_eq!(two, Ok(well_known::builtin_administrators()));
    let three = ConstSid::<3>::try_from(owned.as_sid());
    assert_eq!(three, Err(LengthMismatch));
}

#[test]
fn failed_conversion_leaves_the_source_as_it_was() {
    let owned =
        SecurityIdentifier::try_new(SidIdentifierAuthority::nt_authority(), &[21, 42, 99]).unwrap();
    let before = owned.clone();
    assert_eq!(ConstSid::<2>::try_from(owned.as_sid()), Err(LengthMismatch));
    assert_eq!(owned, before);
    assert_eq!(owned.get_sub_authorities(), &[21, 42, 99]);
    assert_eq!(ConstSid::<2>::try_from(owned), Err(LengthMismatch));
}

#[test]
fn rid_is_the_last_sub_authority() {
    assert_eq!(well_known::builtin_administrators().rid(), 544);
    assert_eq!(well_known::local_system().rid(), 18);
    let long = ConstSid::new(
        SidIdentifierAuthority::nt_authority(),
        [1, 2, 3, 4, 5, 6, 7, 8, 9, 10, 11, 12, 13, 14, 15],
    );
    assert_eq!(long.rid(), 15);
    assert_eq!(long.sub_authority_count(), 15);
    assert_eq!(long.as_sid().rid(), 15);
}

#[test]
fn const_sid_bytes_and_text() {
    let sid = well_known::builtin_users();
    assert_eq!(
        sid.as_bytes(),
        vec![1, 2, 0, 0, 0, 0, 0, 5, 32, 0, 0, 0, 33, 2, 0, 0]
    );
    assert_eq!(sid.to_string(), "S-1-5-32-545");
}

#[test]
fn well_known_texts() {
    assert_eq!(well_known::null().to_string(), "S-1-0-0");
    assert_eq!(well_known::world().to_string(), "S-1-1-0");
    assert_eq!(well_known::local().to_string(), "S-1-2-0");
    assert_eq!(well_known::creator_owner().to_string(), "S-1-3-0");
    assert_eq!(well_known::creator_group().to_string(), "S-1-3-1");
    assert_eq!(well_known::local_system().to_string(), "S-1-5-18");
    assert_eq!(well_known::local_service().to_string(), "S-1-5-19");
    assert_eq!(well_known::network_service().to_string(), "S-1-5-20");
    assert_eq!(well_known::builtin_administrators().to_string(), "S-1-5-32-544");
    assert_eq!(well_known::builtin_users().to_string(), "S-1-5-32-545");
    assert_eq!(well_known::builtin_guests().to_string(), "S-1-5-32-546");
    assert_eq!(well_known::builtin_power_users().to_string(), "S-1-5-32-547");
}
