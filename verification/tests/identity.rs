use server::{IdAllocator, UserId};

#[test]
fn from_usize_wraps_the_number() {
    assert_eq!(UserId::from_usize(7).as_usize(), 7);
    assert_eq!(UserId::from_usize(0).as_usize(), 0);
    assert_eq!(UserId::from_usize(usize::MAX).as_usize(), usize::MAX);
}

#[test]
fn identities_compare_by_the_wrapped_number() {
    assert_eq!(UserId::from_usize(3), UserId::from_usize(3));
    assert_ne!(UserId::from_usize(3), UserId::from_usize(4));
}

#[test]
fn first_identity_is_one() {
    let mut allocator = IdAllocator::new();
    assert_eq!(UserId::create_new_user_id(&mut allocator), UserId::from_usize(1));
}

#[test]
fn identities_count_up_by_one() {
    let mut allocator = IdAllocator::new();
    for expected in 1..=1000usize {
        let id = UserId::create_new_user_id(&mut allocator);
        assert_eq!(id.as_usize(), expected);
    }
}

#[test]
fn identities_are_distinct_and_increasing() {
    let mut allocator = IdAllocator::new();
    let mut issued: Vec<UserId> = Vec::new();
    for _ in 0..200 {
        issued.push(UserId::create_new_user_id(&mut allocator));
    }
    for i in 0..issued.len() {
        for j in (i + 1)..issued.len() {
            assert!(issued[i].as_usize() < issued[j].as_usize());
            assert_ne!(issued[i], issued[j]);
        }
    }
}

#[test]
fn allocators_do_not_share_a_counter() {
    let mut first = IdAllocator::new();
    let mut second = IdAllocator::new();
    assert_eq!(UserId::create_new_user_id(&mut first).as_usize(), 1);
    assert_eq!(UserId::create_new_user_id(&mut first).as_usize(), 2);
    assert_eq!(UserId::create_new_user_id(&mut second).as_usize(), 1);
}
