use std::collections::hash_map::DefaultHasher;
use std::hash::Hasher;
use win_security_identifier::const_sid::ConstSid;
use win_security_identifier::parsing::InvalidSidFormat;
use win_security_identifier::security_identifier::SecurityIdentifier;
use win_security_identifier::sid_identifier_authority::SidIdentifierAuthority;
use win_security_identifier::stack_sid::StackSid;
use win_security_identifier::well_known;

fn hash_of_heap(sid: &SecurityIdentifier) -> u64 {
    let mut hasher = DefaultHasher::new();
    sid.hash(&mut hasher);
    hasher.finish()
}

fn hash_of_stack(sid: &StackSid) -> u64 {
    let mut hasher = DefaultHasher::new();
    sid.hash(&mut hasher);
    hasher.finish()
}

fn sample(count: usize) -> Vec<u32> {
    (0..count as u32).map(|k| k.wrapping_mul(0x0101_0101).wrapping_add(21)).collect()
}

#[test]
fn one_to_fifteen_sub_authorities() {
    let nt = SidIdentifierAuthority::nt_authority();
    assert!(SecurityIdentifier::try_new(nt, &[]).is_none());
    assert!(StackSid::try_new(nt, &[]).is_none());
    for count in 1..=15 {
        let subs = sample(count);
        let heap = SecurityIdentifier::try_new(nt, &subs).unwrap();
        let stack = StackSid::try_new(nt, &subs).unwrap();
        assert_eq!(heap.sub_authority_count() as usize, count);
        assert_eq!(heap.get_sub_authorities(), subs.as_slice());
        assert_eq!(heap.get_sub_authorities().len(), count);
        assert_eq!(heap.revision(), 1);
        assert_eq!(heap.identifier_authority(), nt);
        assert_eq!(stack.sub_authority_count() as usize, count);
        assert_eq!(stack.get_sub_authorities(), subs.as_slice());
        assert_eq!(stack.revision(), 1);
        assert_eq!(stack.identifier_authority(), nt);
        assert_eq!(heap.get_current_min_layout().size(), 8 + 4 * count);
        assert_eq!(stack.get_current_min_layout().size(), 8 + 4 * count);
        assert_eq!(stack.as_binary().len(), 8 + 4 * count);
    }
    assert!(SecurityIdentifier::try_new(nt, &sample(16)).is_none());
    assert!(StackSid::try_new(nt, &sample(16)).is_none());
    assert!(SecurityIdentifier::try_new(nt, &sample(300)).is_none());
}

#[test]
fn sub_authorities_are_stored_least_significant_byte_first() {
    let sid = SecurityIdentifier::try_new(
        SidIdentifierAuthority::new([1, 2, 3, 4, 5, 6]),
        &[0x0403_0201, 0xffee_ddcc],
    )
    .unwrap();
    assert_eq!(
        sid.as_binary(),
        vec![1, 2, 1, 2, 3, 4, 5, 6, 1, 2, 3, 4, 0xcc, 0xdd, 0xee, 0xff]
    );
}

#[test]
fn bytes_written_are_read_back() {
    for count in 1..=15 {
        let subs = sample(count);
        let heap =
            SecurityIdentifier::try_new(SidIdentifierAuthority::new([9, 8, 7, 6, 5, 4]), &subs)
                .unwrap();
        let bytes = heap.as_binary();
        assert_eq!(SecurityIdentifier::from_bytes(&bytes).unwrap(), heap);
        assert_eq!(SecurityIdentifier::try_from(bytes.as_slice()).unwrap(), heap);
        let stack = StackSid::from_bytes(&bytes).unwrap();
        assert!(stack == heap);
        assert_eq!(stack.as_binary(), bytes);
        assert_eq!(StackSid::try_from(bytes.as_slice()).unwrap().as_binary(), bytes);
    }
}

#[test]
fn malformed_bytes_are_refused() {
    let good = vec![1u8, 2, 0, 0, 0, 0, 0, 5, 32, 0, 0, 0, 32, 2, 0, 0];
    assert!(SecurityIdentifier::from_bytes(&good).is_ok());
    let mut revision = good.clone();
    revision[0] = 2;
    assert_eq!(SecurityIdentifier::from_bytes(&revision).err(), Some(InvalidSidFormat));
    assert_eq!(StackSid::from_bytes(&revision).err(), Some(InvalidSidFormat));
    let mut count = good.clone();
    count[1] = 3;
    assert_eq!(SecurityIdentifier::from_bytes(&count).err(), Some(InvalidSidFormat));
    assert_eq!(StackSid::from_bytes(&count).err(), Some(InvalidSidFormat));
    let mut zero = good.clone();
    zero[1] = 0;
    assert_eq!(SecurityIdentifier::from_bytes(&zero[..8]).err(), Some(InvalidSidFormat));
    assert_eq!(SecurityIdentifier::from_bytes(&good[..15]).err(), Some(InvalidSidFormat));
    assert_eq!(SecurityIdentifier::from_bytes(&[]).err(), Some(InvalidSidFormat));
    let mut longer = good.clone();
    longer.push(0);
    assert_eq!(StackSid::from_bytes(&longer).err(), Some(InvalidSidFormat));
    let mut sixteen = vec![0u8; 8 + 4 * 16];
    sixteen[0] = 1;
    sixteen[1] = 16;
    assert_eq!(StackSid::from_bytes(&sixteen).err(), Some(InvalidSidFormat));
}

#[test]
fn heap_and_stack_agree() {
    for count in 1..=15 {
        let subs = sample(count);
        let nt = SidIdentifierAuthority::nt_authority();
        let heap = SecurityIdentifier::try_new(nt, &subs).unwrap();
        let stack = StackSid::try_new(nt, &subs).unwrap();
        assert!(heap == stack);
        assert!(stack == heap);
        assert!(heap.as_sid() == stack.as_sid());
        assert!(heap == stack.as_sid());
        assert!(stack.as_sid() == heap);
        assert_eq!(heap.as_binary(), stack.as_binary());
        assert_eq!(heap.to_string(), stack.to_string());
        assert_eq!(hash_of_heap(&heap), hash_of_stack(&stack));
    }
}

#[test]
fn different_identifiers_differ() {
    let nt = SidIdentifierAuthority::nt_authority();
    let a = SecurityIdentifier::try_new(nt, &[32, 544]).unwrap();
    let b = SecurityIdentifier::try_new(nt, &[32, 545]).unwrap();
    let c = SecurityIdentifier::try_new(nt, &[32]).unwrap();
    let d = SecurityIdentifier::try_new(SidIdentifierAuthority::null_authority(), &[32, 544])
        .unwrap();
    let e = StackSid::try_new(nt, &[32, 544, 0]).unwrap();
    assert_ne!(a, b);
    assert_ne!(a, c);
    assert_ne!(a, d);
    assert!(a != e);
    assert!(e != a);
    assert_ne!(hash_of_heap(&a), hash_of_heap(&b));
    assert_ne!(hash_of_heap(&a), hash_of_heap(&c));
    assert!(well_known::builtin_administrators() == a);
    assert!(well_known::builtin_users() == b);
    assert!(well_known::builtin_users() != a);
}

#[test]
fn clone_keeps_the_identifier() {
    for count in 1..=15 {
        let subs = sample(count);
        let nt = SidIdentifierAuthority::nt_authority();
        let heap = SecurityIdentifier::try_new(nt, &subs).unwrap();
        let copy = heap.clone();
        assert_eq!(copy, heap);
        assert_eq!(copy.as_binary(), heap.as_binary());
        assert_eq!(copy.sub_authority_count() as usize, copy.get_sub_authorities().len());
        let stack = StackSid::try_new(nt, &subs).unwrap();
        let copy = stack.clone();
        assert!(copy == stack);
        assert_eq!(copy.as_binary(), stack.as_binary());
    }
}

#[test]
fn clone_from_overwrites_the_destination() {
    let nt = SidIdentifierAuthority::nt_authority();
    let world = SidIdentifierAuthority::security_world_authority();
    for from in 1..=15 {
        for to in [1usize, 2, 7, 15] {
            let source = SecurityIdentifier::try_new(world, &sample(from)).unwrap();
            let mut destination = SecurityIdentifier::try_new(nt, &vec![7; to]).unwrap();
            destination.clone_from(&source);
            assert_eq!(destination, source);
            assert_eq!(destination.as_binary(), source.as_binary());
            assert_eq!(destination.sub_authority_count() as usize, from);
            let source = StackSid::try_new(world, &sample(from)).unwrap();
            let mut destination = StackSid::try_new(nt, &vec![7; to]).unwrap();
            destination.clone_from(&source);
            assert!(destination == source);
            assert_eq!(destination.as_binary(), source.as_binary());
            assert_eq!(destination.get_sub_authorities(), sample(from).as_slice());
        }
    }
}

#[test]
fn conversions_keep_the_identifier() {
    let nt = SidIdentifierAuthority::nt_authority();
    let fixed = ConstSid::new(nt, [21, 42, 99]);
    let heap = SecurityIdentifier::from(fixed);
    let stack = StackSid::from(heap.as_sid());
    let heap_again = SecurityIdentifier::from(stack.as_sid());
    let fixed_again = ConstSid::<3>::try_from(heap_again.as_sid()).unwrap();
    assert_eq!(fixed_again, fixed);
    assert!(fixed == heap);
    assert!(heap == fixed);
    assert!(fixed == stack);
    assert!(stack == fixed);
    assert!(fixed == stack.as_sid());
    assert!(heap.as_sid() == fixed);
    assert_eq!(heap.sub_authority_count(), 3);
    assert_eq!(stack.sub_authority_count(), 3);
    assert_eq!(fixed_again.sub_authority_count(), 3);
    assert_eq!(stack.get_sub_authorities(), &[21, 42, 99]);
    assert_eq!(ConstSid::<3>::try_from(heap).unwrap(), fixed);
}

#[test]
fn the_view_shows_every_part() {
    let nt = SidIdentifierAuthority::nt_authority();
    let heap = SecurityIdentifier::try_new(nt, &[21, 42, 1337]).unwrap();
    let view = heap.as_sid();
    assert_eq!(view.revision(), 1);
    assert_eq!(view.sub_authority_count(), 3);
    assert_eq!(view.identifier_authority(), nt);
    assert_eq!(view.get_sub_authorities(), &[21, 42, 1337]);
    assert_eq!(view.rid(), 1337);
    assert_eq!(view.get_current_min_layout().size(), 20);
    assert_eq!(view.get_current_min_layout().align(), 4);
    let head = view.head();
    assert_eq!((head.revision, head.sub_authority_count), (1, 3));
    assert_eq!(head.identifier_authority, nt);
    assert_eq!(view.to_string(), "S-1-5-21-42-1337");
}

#[test]
fn text_is_read_into_either_owner() {
    let heap = SecurityIdentifier::from_str("S-1-5-21-42-1337").unwrap();
    let stack = StackSid::from_str("s-1-5-21-42-1337").unwrap();
    assert_eq!(heap.get_sub_authorities(), &[21, 42, 1337]);
    assert!(heap == stack);
    assert_eq!(SecurityIdentifier::from_str("S-2-5-32-544").err(), Some(InvalidSidFormat));
    assert_eq!(StackSid::from_str("S-1-5").err(), Some(InvalidSidFormat));
    assert!("S-1-5-".parse::<StackSid>().is_err());
}
