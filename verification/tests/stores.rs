use anonbot::anonymous::{generate_unique_code, AnonymousManager, AnonymousStorage, CODE_MAX, CODE_MIN};
use anonbot::broadcast::{BroadcastManager, BroadcastStorage};
use anonbot::forever::AnonForeverTracker;
use anonbot::storage::{anon_key_of, debug_opt_id_string, BlockMgr, BlockStore};

#[test]
fn block_and_unblock_anonymous_codes() {
    let mut b = BlockMgr::new();
    assert!(!b.is_anon_blocked("1234"));
    assert!(b.block_anon("1234"));
    assert!(b.is_anon_blocked("1234"));
    assert!(!b.block_anon("1234"));
    assert!(b.unblock_anon("1234"));
    assert!(!b.is_anon_blocked("1234"));
    assert!(!b.unblock_anon("1234"));
}

#[test]
fn block_and_unblock_usernames_and_ids() {
    let mut b = BlockMgr::new();
    assert!(b.block_user("@bob"));
    assert!(b.is_user_blocked("@bob"));
    assert!(!b.is_user_blocked("bob"));
    assert!(!b.block_user("@bob"));
    assert!(b.unblock_user("@bob"));
    assert!(!b.unblock_user("@bob"));
    assert!(b.block_id(-7));
    assert!(!b.block_id(-7));
    assert!(b.is_id_blocked(-7));
    assert!(!b.is_id_blocked(7));
}

#[test]
fn registration_is_read_back() {
    let mut b = BlockMgr::new();
    assert_eq!(b.get_by_anon("1234"), None);
    b.reg_anon("1234", 42);
    assert_eq!(b.get_by_anon("1234"), Some(42));
    b.reg_anon("1234", 43);
    assert_eq!(b.get_by_anon("1234"), Some(43));
    assert_eq!(anon_key_of("1234"), "anon1234");
}

#[test]
fn unblock_all_counts_and_clears() {
    let mut b = BlockMgr::new();
    b.block_id(1);
    b.block_id(2);
    b.block_user("@x");
    b.block_anon("1111");
    b.reg_anon("1111", 5);
    assert_eq!(b.unblock_all(), (2, 1, 1));
    assert!(!b.is_id_blocked(1));
    assert!(!b.is_user_blocked("@x"));
    assert!(!b.is_anon_blocked("1111"));
    assert_eq!(b.get_by_anon("1111"), Some(5));
    assert_eq!(b.unblock_all(), (0, 0, 0));
}

#[test]
fn blocked_list_lines() {
    let mut b = BlockMgr::new();
    b.block_anon("1111");
    b.reg_anon("1111", 5);
    b.block_anon("2222");
    b.block_user("@x");
    b.block_id(-3);
    assert_eq!(
        b.blocked_list(),
        vec![
            "anon1111 (пользователь: Some(5))".to_string(),
            "anon2222 (пользователь: None)".to_string(),
            "@x".to_string(),
            "ID:-3".to_string(),
        ]
    );
    assert_eq!(debug_opt_id_string(Some(-1)), format!("{:?}", Some(-1i64)));
    assert_eq!(debug_opt_id_string(None), format!("{:?}", None::<i64>));
}

#[test]
fn block_store_round_trip() {
    let mut b = BlockMgr::new();
    b.block_anon("1111");
    b.block_user("@x");
    b.block_id(9);
    b.reg_anon("1111", 5);
    let s = b.store();
    let back = BlockMgr::from_store(BlockStore::from_parts(
        s.anons_vec(),
        s.users_vec(),
        s.ids_vec(),
        s.owners_vec(),
    ));
    assert!(back.is_anon_blocked("1111"));
    assert!(back.is_user_blocked("@x"));
    assert!(back.is_id_blocked(9));
    assert_eq!(back.get_by_anon("1111"), Some(5));
    assert_eq!(back.blocked_list(), b.blocked_list());
}

#[test]
fn block_store_keeps_the_later_registration() {
    let s = BlockStore::from_parts(
        vec![],
        vec![],
        vec![1, 1],
        vec![("anon1".to_string(), 1), ("anon1".to_string(), 2)],
    );
    assert_eq!(s.ids_vec(), vec![1]);
    assert_eq!(BlockMgr::from_store(s).get_by_anon("1"), Some(2));
}

#[test]
fn unique_codes_avoid_the_used_ones() {
    let used: Vec<u16> = (CODE_MIN..CODE_MAX).collect();
    assert_eq!(generate_unique_code(&used), CODE_MAX);
    for _ in 0..50 {
        let c = generate_unique_code(&[1000, 1001]);
        assert!((1002..=9999).contains(&c));
    }
}

#[test]
fn a_user_keeps_its_code() {
    let mut m = AnonymousManager::new();
    assert_eq!(m.get_anonymous_code(1), None);
    let a = m.get_or_create_anonymous_code(1);
    assert!((1000..=9999).contains(&a));
    assert_eq!(m.get_or_create_anonymous_code(1), a);
    assert_eq!(m.get_anonymous_code(1), Some(a));
    let b = m.get_or_create_anonymous_code(2);
    assert_ne!(a, b);
    assert_eq!(m.code_count(), 2);
}

#[test]
fn anonymous_store_round_trip() {
    let mut m = AnonymousManager::new();
    let a = m.get_or_create_anonymous_code(10);
    let b = m.get_or_create_anonymous_code(-20);
    let pairs = m.storage_ref().assignments_vec();
    assert_eq!(pairs, vec![(10, a), (-20, b)]);
    let back = AnonymousManager::from_storage(AnonymousStorage::from_assignments(pairs).unwrap());
    assert_eq!(back.get_anonymous_code(10), Some(a));
    assert_eq!(back.get_anonymous_code(-20), Some(b));
    assert_eq!(back.code_count(), 2);
}

#[test]
fn conflicting_assignments_are_refused() {
    assert!(AnonymousStorage::from_assignments(vec![(1, 1000), (1, 1001)]).is_none());
    assert!(AnonymousStorage::from_assignments(vec![(1, 1000), (2, 1000)]).is_none());
    assert!(AnonymousStorage::from_assignments(vec![(1, 999)]).is_none());
    assert!(AnonymousStorage::from_assignments(vec![(1, 1000), (2, 9999)]).is_some());
}

#[test]
fn broadcast_records_users_and_names() {
    let mut m = BroadcastManager::new();
    assert!(m.add_user_with_username(1, None));
    assert!(!m.add_user_with_username(1, None));
    assert!(m.add_user_with_username(1, Some("bob".to_string())));
    assert!(m.add_user_with_username(2, Some("bob".to_string())));
    assert_eq!(m.get_user_by_username("bob"), Some(2));
    assert_eq!(m.get_user_by_username("@bob"), None);
    let mut list = m.get_broadcast_list();
    list.sort();
    assert_eq!(list, vec![1, 2]);
}

#[test]
fn broadcast_list_leaves_out_the_unsubscribed() {
    let s = BroadcastStorage::from_parts(vec![1, 2, 3, 3], vec![2], vec![("amy".to_string(), 3)]);
    let m = BroadcastManager::from_storage(s);
    let mut list = m.get_broadcast_list();
    list.sort();
    assert_eq!(list, vec![1, 3]);
    assert_eq!(m.get_user_by_username("amy"), Some(3));
    let st = m.storage();
    let mut all = st.all_users_vec();
    all.sort();
    assert_eq!(all, vec![1, 2, 3]);
    assert_eq!(st.unsubscribed_vec(), vec![2]);
    assert_eq!(st.usernames_vec(), vec![("amy".to_string(), 3)]);
}

#[test]
fn always_anonymous_mode_toggles() {
    let mut t = AnonForeverTracker::new();
    assert!(!t.is_enabled(5));
    assert!(t.toggle(5));
    assert!(t.is_enabled(5));
    assert!(!t.toggle(5));
    assert!(!t.is_enabled(5));
    t.toggle(5);
    t.disable(5);
    assert!(!t.is_enabled(5));
    assert!(!t.is_enabled(6));
}

#[test]
fn anonymous_store_round_trip_keeps_the_order() {
    let mut m = AnonymousManager::new();
    let codes: Vec<u16> = (0..5).map(|u| m.get_or_create_anonymous_code(u)).collect();
    let pairs = m.storage_ref().assignments_vec();
    let back = AnonymousStorage::from_assignments(pairs.clone()).unwrap();
    assert_eq!(back.assignments_vec(), pairs);
    assert_eq!(pairs.iter().map(|p| p.1).collect::<Vec<u16>>(), codes);
}

#[test]
fn unblocking_ids() {
    let mut b = BlockMgr::new();
    assert!(!b.unblock_id(4));
    b.block_id(4);
    assert!(b.unblock_id(4));
    assert!(!b.is_id_blocked(4));
}
