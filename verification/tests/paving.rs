use rc_bump::Paving;
use rc_bump::RcBumpMember;

struct Node {
    tag: u64,
    previous: Option<RcBumpMember<Node>>,
}

#[test]
fn new_paving_has_made_one_arena() {
    let paving = Paving::new(16, 8);
    assert_eq!(paving.created(), 1);
    assert_eq!(paving.watch().count(), 1);
}

#[test]
fn paving_reports_what_it_was_made_with() {
    let paving = Paving::new(100, 64);
    assert_eq!(paving.capacity(), 100);
    assert_eq!(paving.align(), 64);
    let watch = paving.watch();
    assert_eq!(watch.start(), 64);
    assert_eq!(watch.layout().size(), 136);
    assert_eq!(watch.layout().align(), 64);
}

#[test]
fn fresh_arena_has_the_same_header() {
    let mut paving = Paving::new(16, 8);
    let before = paving.watch();
    let _a = paving.try_alloc(1_u64).unwrap();
    let _b = paving.try_alloc(2_u64).unwrap();
    let _c = paving.try_alloc(3_u64).unwrap();
    let after = paving.watch();
    assert_eq!(before.count(), 2);
    assert_eq!(after.count(), 2);
    assert_eq!(after.start(), before.start());
    assert_eq!(after.layout().size(), before.layout().size());
    assert_eq!(paving.capacity(), 16);
    assert_eq!(paving.align(), 8);
}

#[test]
fn paving_rotates_when_the_arena_is_full() {
    let mut paving = Paving::new(16, 8);
    let a = paving.try_alloc(1_u64).unwrap();
    let b = paving.try_alloc(2_u64).unwrap();
    assert_eq!(paving.created(), 1);
    let c = paving.try_alloc(3_u64).unwrap();
    assert_eq!(paving.created(), 2);
    let d = paving.try_alloc(4_u64).unwrap();
    assert_eq!(paving.created(), 2);
    let e = paving.try_alloc(5_u64).unwrap();
    assert_eq!(paving.created(), 3);
    assert_eq!((a.addr(), b.addr(), c.addr(), d.addr(), e.addr()), (8, 16, 8, 16, 8));
    assert_eq!((*a, *b, *c, *d, *e), (1, 2, 3, 4, 5));
}

#[test]
fn too_large_comes_back_at_once() {
    let mut paving = Paving::new(16, 8);
    let watch = paving.watch();
    assert_eq!(paving.try_alloc([7_u8; 9]).err(), Some([7; 9]));
    assert_eq!(paving.try_alloc([7_u64; 2]).err(), Some([7; 2]));
    assert_eq!(paving.try_alloc_rc([7_u8; 9]).err(), Some([7; 9]));
    let text = String::from("twenty-four bytes");
    assert_eq!(paving.try_alloc_rc(text).err().unwrap(), "twenty-four bytes");
    assert_eq!(paving.created(), 1);
    assert_eq!(watch.count(), 1);
    assert_eq!(paving.watch().count(), 1);
    let fits = paving.try_alloc(1_u64).unwrap();
    assert_eq!(fits.addr(), 8);
    assert_eq!(paving.created(), 1);
}

#[test]
fn half_the_capacity_is_not_too_large() {
    let mut paving = Paving::new(16, 8);
    let _a = paving.try_alloc(1_u8).unwrap();
    let b = paving.try_alloc([2_u8; 8]).unwrap();
    assert_eq!(b.addr(), 9);
    let c = paving.try_alloc([3_u8; 8]).unwrap();
    assert_eq!(c.addr(), 8);
    assert_eq!(paving.created(), 2);
}

#[test]
fn arenas_go_one_by_one() {
    let mut paving = Paving::new(16, 8);
    let first_arena = paving.watch();
    let a = paving.try_alloc(1_u64).unwrap();
    let b = paving.try_alloc(2_u64).unwrap();
    assert_eq!(first_arena.count(), 3);
    let c = paving.try_alloc(3_u64).unwrap();
    let second_arena = paving.watch();
    assert_eq!(first_arena.count(), 2);
    assert_eq!(second_arena.count(), 2);
    drop(a);
    assert_eq!(first_arena.count(), 1);
    assert_eq!(*b, 2);
    drop(b);
    assert_eq!(first_arena.count(), 0);
    assert_eq!(second_arena.count(), 2);
    assert_eq!(*c, 3);
    drop(paving);
    assert_eq!(second_arena.count(), 1);
    assert_eq!(*c, 3);
    drop(c);
    assert_eq!(second_arena.count(), 0);
}

#[test]
fn many_values_stay_good_across_rotations() {
    let mut paving = Paving::new(64, 8);
    let mut members = Vec::new();
    for i in 0..1000_u64 {
        members.push(paving.try_alloc(i).unwrap());
    }
    assert_eq!(paving.created(), 125);
    for (i, member) in members.iter().enumerate() {
        assert_eq!(**member, i as u64);
    }
    for member in members.iter_mut() {
        **member *= 2;
    }
    members.reverse();
    for (i, member) in members.iter().enumerate() {
        assert_eq!(**member, 2 * (999 - i as u64));
    }
}

#[test]
fn shared_values_rotate_too() {
    let mut paving = Paving::new(16, 8);
    let a = paving.try_alloc_rc(1_u64).unwrap();
    let b = paving.try_alloc_rc(2_u64).unwrap();
    let c = paving.try_alloc_rc(3_u64).unwrap();
    assert_eq!(paving.created(), 2);
    assert_eq!((a.addr(), b.addr(), c.addr()), (8, 16, 8));
    let wrapped = paving.try_alloc_rc_with(4_u64, true).unwrap();
    assert_eq!(paving.created(), 3);
    assert_eq!(wrapped.addr(), 8);
    assert_eq!(*a + *b + *c + *wrapped, 10);
}

#[test]
fn fresh_arena_is_asked_for_room() {
    let paving = Paving::new(16, 8);
    assert!(paving.takes_owned::<u64>());
    assert!(paving.takes_owned::<[u8; 16]>());
    assert!(!paving.takes_owned::<[u8; 17]>());
    assert!(paving.takes_owned::<()>());
    assert!(paving.takes_shared::<u64>(false));
    assert!(paving.takes_shared::<u64>(true));
    assert!(paving.takes_shared::<[u64; 2]>(false));
    assert!(!paving.takes_shared::<[u64; 2]>(true));
}

#[test]
fn entry_wider_than_the_arena_finds_no_room() {
    let mut paving = Paving::new(2, 1);
    assert!(!paving.takes_shared::<u8>(true));
    assert!(paving.takes_shared::<u8>(false));
    assert!(paving.takes_owned::<u8>());
    let bare = paving.try_alloc_rc_with(9_u8, false).unwrap();
    assert_eq!(*bare, 9);
    assert_eq!(paving.created(), 1);
}

#[test]
fn what_is_not_too_large_is_always_accepted() {
    let mut paving = Paving::new(24, 8);
    let mut kept = Vec::new();
    for i in 0..100_u64 {
        assert!(paving.takes_owned::<u64>());
        assert!(paving.takes_owned::<[u8; 12]>());
        kept.push(paving.try_alloc(i).unwrap());
        let bytes = paving.try_alloc([i as u8; 12]).unwrap();
        assert_eq!(*bytes, [i as u8; 12]);
        assert_eq!(paving.try_alloc([i as u8; 13]).err(), Some([i as u8; 13]));
    }
    assert_eq!(kept.iter().map(|member| **member).sum::<u64>(), 4950);
}

#[test]
fn value_without_bytes_takes_no_room() {
    let mut paving = Paving::new(16, 8);
    let _first = paving.try_alloc(1_u64).unwrap();
    let _second = paving.try_alloc(2_u64).unwrap();
    let nothing = paving.try_alloc(()).unwrap();
    assert_eq!(nothing.addr(), 24);
    assert_eq!(paving.created(), 1);
}

#[test]
fn chain_of_nodes_outlives_the_paving() {
    let count = 350_u64;
    let node_slot = std::mem::size_of::<Node>() + std::mem::size_of::<u64>();
    let mut watches = Vec::new();
    let mut handles = Vec::new();
    {
        let mut paving = Paving::new(100 * node_slot, std::mem::align_of::<u64>());
        let mut previous: Option<RcBumpMember<Node>> = None;
        for tag in 1..=count {
            let node = Node { tag, previous: previous.clone() };
            let made = paving.created();
            let handle = paving.try_alloc_rc(node).ok().unwrap();
            if watches.is_empty() || paving.created() != made {
                watches.push(paving.watch());
            }
            handles.push(handle.clone());
            previous = Some(handle);
        }
        assert_eq!(paving.created(), 4);
        assert_eq!(watches.len(), 4);
    }
    let root = handles.pop().unwrap();
    drop(handles);
    for watch in &watches {
        assert!(watch.count() > 0);
    }
    let mut at = root.clone();
    let mut expected = count;
    loop {
        assert_eq!(at.tag, expected);
        let next = match &at.previous {
            Some(previous) => previous.clone(),
            None => break,
        };
        at = next;
        expected -= 1;
    }
    assert_eq!(expected, 1);
    drop(at);
    for watch in &watches {
        assert!(watch.count() > 0);
    }
    drop(root);
    for watch in &watches {
        assert_eq!(watch.count(), 0);
    }
}

#[test]
fn arena_of_a_chain_goes_when_its_last_node_goes() {
    let node_slot = std::mem::size_of::<Node>() + std::mem::size_of::<u64>();
    let mut paving = Paving::new(2 * node_slot, 8);
    let first_arena = paving.watch();
    let a = paving.try_alloc_rc(Node { tag: 1, previous: None }).ok().unwrap();
    let b = paving.try_alloc_rc(Node { tag: 2, previous: Some(a.clone()) }).ok().unwrap();
    let c = paving.try_alloc_rc(Node { tag: 3, previous: Some(b.clone()) }).ok().unwrap();
    let second_arena = paving.watch();
    assert_eq!(paving.created(), 2);
    drop(paving);
    assert_eq!(first_arena.count(), 2);
    assert_eq!(second_arena.count(), 1);
    drop(a);
    drop(b);
    assert_eq!(first_arena.count(), 2);
    assert_eq!(c.previous.as_ref().unwrap().previous.as_ref().unwrap().tag, 1);
    drop(c);
    assert_eq!(second_arena.count(), 0);
    assert_eq!(first_arena.count(), 0);
}
