use rc_bump::MixedPaving;
use rc_bump::OwnedMixedPavingMember;
use rc_bump::SharedMixedPavingMember;

#[test]
fn small_value_goes_into_a_bump() {
    let mut mixed = MixedPaving::new(16, 8);
    let member = mixed.alloc_owned(5_u64);
    assert!(matches!(member, OwnedMixedPavingMember::BumpMember(_)));
    assert_eq!(*member, 5);
}

#[test]
fn oversized_value_goes_to_the_heap() {
    let mut mixed = MixedPaving::new(16, 8);
    let watch = mixed.watch();
    let member = mixed.alloc_owned([3_u8; 64]);
    assert!(matches!(member, OwnedMixedPavingMember::Box(_)));
    assert_eq!(*member, [3; 64]);
    assert_eq!(mixed.created(), 1);
    assert_eq!(watch.count(), 1);
}

#[test]
fn mixed_paving_shows_its_arena() {
    let mixed = MixedPaving::new(16, 8);
    let watch = mixed.watch();
    assert_eq!(mixed.created(), 1);
    assert_eq!(watch.start(), 8);
    assert_eq!(watch.layout().size(), 48);
    assert_eq!(watch.count(), 1);
}

#[test]
fn both_kinds_read_and_write_alike() {
    let mut mixed = MixedPaving::new(16, 8);
    let mut small = mixed.alloc_owned(1_u64);
    let mut large = mixed.alloc_owned([1_u64; 4]);
    assert!(matches!(small, OwnedMixedPavingMember::BumpMember(_)));
    assert!(matches!(large, OwnedMixedPavingMember::Box(_)));
    *small += 41;
    large[2] += 41;
    assert_eq!(*small, 42);
    assert_eq!(*large, [1, 1, 42, 1]);
}

#[test]
fn mixed_paving_rotates_like_a_paving() {
    let mut mixed = MixedPaving::new(16, 8);
    let members: Vec<OwnedMixedPavingMember<u64>> = (0..7).map(|i| mixed.alloc_owned(i)).collect();
    assert_eq!(mixed.created(), 4);
    for (i, member) in members.iter().enumerate() {
        assert!(matches!(member, OwnedMixedPavingMember::BumpMember(_)));
        assert_eq!(**member, i as u64);
    }
}

#[test]
fn shared_small_value_goes_into_a_bump() {
    let mut mixed = MixedPaving::new(16, 8);
    let member = mixed.alloc_rc(5_u64);
    assert_eq!(*member, 5);
    match member {
        SharedMixedPavingMember::RcBumpMember(inner) => {
            let other = inner.clone();
            assert_eq!(*inner + *other, 10);
            assert_eq!(inner.addr(), 8);
        }
        SharedMixedPavingMember::Rc(_) => panic!("the value fits a bump"),
    }
}

#[test]
fn shared_oversized_value_goes_to_the_heap() {
    let mut mixed = MixedPaving::new(16, 8);
    let member = mixed.alloc_rc(String::from("too long for sixteen bytes"));
    assert_eq!(*member, "too long for sixteen bytes");
    assert_eq!(mixed.created(), 1);
    match member {
        SharedMixedPavingMember::Rc(inner) => {
            let other = inner.clone();
            drop(inner);
            assert_eq!(*other, "too long for sixteen bytes");
        }
        SharedMixedPavingMember::RcBumpMember(_) => panic!("the value fits no bump"),
    }
}

#[test]
fn chosen_layout_reaches_the_bump() {
    let mut mixed = MixedPaving::new(64, 8);
    let wrapped = mixed.alloc_rc_with(1_u64, true);
    let bare = mixed.alloc_rc_with(2_u64, false);
    match (&wrapped, &bare) {
        (
            SharedMixedPavingMember::RcBumpMember(first),
            SharedMixedPavingMember::RcBumpMember(second),
        ) => {
            assert!(first.is_wrapped());
            assert!(!second.is_wrapped());
            assert_eq!(first.addr(), 8);
            assert_eq!(second.addr(), 24);
        }
        _ => panic!("both values fit a bump"),
    }
    assert_eq!(*wrapped + *bare, 3);
}

#[test]
fn mixed_paving_reports_what_it_was_made_with() {
    let mixed = MixedPaving::new(100, 64);
    assert_eq!(mixed.capacity(), 100);
    assert_eq!(mixed.align(), 64);
}

#[test]
fn entry_that_finds_no_room_goes_to_the_heap() {
    let mut mixed = MixedPaving::new(2, 1);
    let wrapped = mixed.alloc_rc_with(9_u8, true);
    assert!(matches!(wrapped, SharedMixedPavingMember::Rc(_)));
    assert_eq!(*wrapped, 9);
    assert_eq!(mixed.created(), 1);
    assert_eq!(mixed.watch().count(), 1);
    let bare = mixed.alloc_rc_with(7_u8, false);
    assert!(matches!(bare, SharedMixedPavingMember::RcBumpMember(_)));
    assert_eq!(*bare, 7);
    assert_eq!(mixed.watch().count(), 2);
}

#[test]
fn allocation_never_fails() {
    let mut mixed = MixedPaving::new(32, 8);
    let mut total = 0_u64;
    let mut kept = Vec::new();
    for i in 0..200_u64 {
        let a = mixed.alloc_owned(i as u8);
        let b = mixed.alloc_owned([i; 2]);
        let c = mixed.alloc_owned([i; 16]);
        let d = mixed.alloc_rc(vec![i; 3]);
        total += *a as u64 + b[1] + c[15] + d[2];
        kept.push(d);
    }
    assert_eq!(total, 4 * (0..200).sum::<u64>());
    assert_eq!(kept.len(), 200);
    assert_eq!(kept[199][0], 199);
}
