use social_feed::account_map::AccountMap;
use social_feed::account_set::AccountSet;
use social_feed::keys::{account_hash, SK};
use social_feed::ledger::Ledger;
use social_feed::paginate::MAX_PAGE_SIZE;
use social_feed::post::MAX_CONTENT_LEN;
use social_feed::{paged_vector, AccountId, Context, Contract, FeedError, Post, Sequence};

const BOB_HASH: [u8; 32] = [
    36, 52, 20, 40, 85, 50, 133, 225, 14, 116, 165, 242, 111, 70, 56, 172, 83, 175, 178, 140, 3,
    42, 255, 26, 4, 144, 14, 110, 177, 21, 164, 4,
];

const ALICE_HASH: [u8; 32] = [
    45, 213, 221, 165, 64, 118, 123, 58, 26, 163, 53, 68, 188, 186, 56, 4, 47, 77, 246, 222, 155,
    221, 180, 103, 152, 178, 148, 129, 200, 66, 197, 88,
];

fn numbers(count: u64) -> Sequence<u64> {
    let mut items = Sequence::new(vec![9]);
    for i in 0..count {
        items.push(i * 10);
    }
    items
}

fn page(items: &Sequence<u64>, page: u64, page_size: u64) -> Vec<u64> {
    paged_vector(items, page, page_size).unwrap().into_iter().copied().collect()
}

#[test]
fn sequence_appends_and_reads_by_index() {
    let mut items: Sequence<String> = Sequence::new(vec![1, 2]);
    assert!(items.is_empty());
    assert_eq!(items.len(), 0);
    assert!(items.get(0).is_none());
    items.push("a".to_string());
    items.push("b".to_string());
    assert!(!items.is_empty());
    assert_eq!(items.len(), 2);
    assert_eq!(items.get(0).unwrap(), "a");
    assert_eq!(items.get(1).unwrap(), "b");
    assert!(items.get(2).is_none());
    assert!(items.get(u64::MAX).is_none());
    assert_eq!(items.storage_prefix(), &vec![1, 2]);
}

#[test]
fn page_walks_down_from_the_newest() {
    let items = numbers(13);
    assert_eq!(page(&items, 1, 3), vec![120, 110, 100]);
    assert_eq!(page(&items, 0, 3), vec![120, 110, 100]);
    assert_eq!(page(&items, 2, 5), vec![70, 60, 50, 40, 30]);
    assert_eq!(page(&items, 3, 5), vec![20, 10, 0]);
    assert_eq!(page(&items, 4, 5), Vec::<u64>::new());
    assert_eq!(page(&items, 1, 13), page(&items, 1, 100));
    assert_eq!(page(&items, 1, 100).len(), 13);
}

#[test]
fn page_of_an_empty_sequence_is_empty() {
    let items = numbers(0);
    assert!(page(&items, 0, 10).is_empty());
    assert!(page(&items, 1, 10).is_empty());
    assert!(page(&items, 7, 100).is_empty());
}

#[test]
fn page_size_limit_is_100() {
    assert_eq!(MAX_PAGE_SIZE, 100);
    let items = numbers(3);
    assert!(paged_vector(&items, 1, 100).is_ok());
    assert_eq!(paged_vector(&items, 1, 101).unwrap_err(), FeedError::PageSizeExceeded);
    assert_eq!(paged_vector(&items, 9, u64::MAX).unwrap_err(), FeedError::PageSizeExceeded);
    let none = numbers(0);
    assert_eq!(paged_vector(&none, 1, 101).unwrap_err(), FeedError::PageSizeExceeded);
}

#[test]
fn page_number_times_size_may_pass_the_largest_number() {
    let items = numbers(5);
    assert!(page(&items, u64::MAX, 100).is_empty());
    assert!(page(&items, u64::MAX / 2, 3).is_empty());
    assert!(page(&items, u64::MAX, 0).is_empty());
}

#[test]
fn error_messages() {
    assert_eq!(FeedError::ContentTooLong.message(), "content too long");
    assert_eq!(FeedError::PageSizeExceeded.message(), "page_size cannot exceed 100");
    assert_ne!(FeedError::ContentTooLong, FeedError::PageSizeExceeded);
}

#[test]
fn post_new_checks_the_length_of_the_content() {
    assert_eq!(MAX_CONTENT_LEN, 300);
    let bob = AccountId::from_str("bob.near");
    let post = Post::new(4, "y".repeat(300), bob.clone(), 77).unwrap();
    assert_eq!(post.id(), 4);
    assert_eq!(post.content().len(), 300);
    assert_eq!(post.user(), &bob);
    assert_eq!(post.created_at(), 77);
    let copy = post.clone();
    assert_eq!(copy.id(), 4);
    assert_eq!(copy.content(), post.content());
    assert_eq!(copy.user(), &bob);
    assert_eq!(copy.created_at(), 77);
    assert_eq!(Post::new(4, "y".repeat(301), bob, 77).unwrap_err(), FeedError::ContentTooLong);
}

#[test]
fn ledger_numbers_posts_by_index() {
    let mut ledger = Ledger::new();
    assert_eq!(ledger.len(), 0);
    assert!(ledger.get(0).is_none());
    let bob = AccountId::from_str("bob.near");
    let first = ledger.create("one".into(), bob.clone(), 10).unwrap();
    assert_eq!(first.id(), 0);
    assert_eq!(
        ledger.create("z".repeat(400), bob.clone(), 11).unwrap_err(),
        FeedError::ContentTooLong
    );
    let second = ledger.create("two".into(), bob, 12).unwrap();
    assert_eq!(second.id(), 1);
    assert_eq!(ledger.len(), 2);
    assert_eq!(ledger.get(1).unwrap().content(), "two");
    assert_eq!(ledger.get(1).unwrap().created_at(), 12);
    assert!(ledger.get(2).is_none());
    assert_eq!(ledger.posts().len(), 2);
    assert_eq!(ledger.posts().storage_prefix(), &vec![0]);
}

#[test]
fn account_is_its_text() {
    let a = AccountId::from_str("bob.near");
    let b = AccountId::new("bob.near".to_string());
    let c = AccountId::from_str("bob.neas");
    assert_eq!(a, b);
    assert_ne!(a, c);
    assert_eq!(a.clone(), a);
    assert_eq!(a.as_str(), "bob.near");
    assert_eq!(a.as_bytes(), b"bob.near");
    let context = Context::new(a.clone(), 42);
    assert_eq!(context.current_account(), &a);
    assert_eq!(context.now(), 42);
}

#[test]
fn account_hash_is_sha256_of_the_name() {
    assert_eq!(account_hash(&AccountId::from_str("bob.near")), BOB_HASH.to_vec());
    assert_eq!(account_hash(&AccountId::from_str("alice.near")), ALICE_HASH.to_vec());
    assert_eq!(
        account_hash(&AccountId::from_str("")),
        vec![
            227, 176, 196, 66, 152, 252, 28, 20, 154, 251, 244, 200, 153, 111, 185, 36, 39, 174,
            65, 228, 100, 155, 147, 76, 164, 149, 153, 27, 120, 82, 184, 85
        ]
    );
}

#[test]
fn storage_keys_of_the_shared_collections() {
    assert_eq!(SK::Posts.into_storage_key(), vec![0]);
    assert_eq!(SK::UserPosts.into_storage_key(), vec![1]);
    assert_eq!(SK::Followings.into_storage_key(), vec![3]);
    assert_eq!(SK::Followers.into_storage_key(), vec![5]);
}

#[test]
fn storage_keys_of_the_collections_of_an_account() {
    assert_eq!(
        SK::UserPost { account_hash: vec![7, 8, 9] }.into_storage_key(),
        vec![2, 3, 0, 0, 0, 7, 8, 9]
    );
    assert_eq!(
        SK::FollowingUser { account_hash: vec![] }.into_storage_key(),
        vec![4, 0, 0, 0, 0]
    );
    let long = SK::FollowerUser { account_hash: vec![1; 70_000] }.into_storage_key();
    assert_eq!(long.len(), 70_005);
    assert_eq!(&long[..5], &[6, 112, 17, 1, 0]);

    let bob = AccountId::from_str("bob.near");
    let mut expected = vec![2, 32, 0, 0, 0];
    expected.extend_from_slice(&BOB_HASH);
    assert_eq!(SK::user_post(&bob).into_storage_key(), expected);
    expected[0] = 4;
    assert_eq!(SK::following_user(&bob).into_storage_key(), expected);
    expected[0] = 6;
    assert_eq!(SK::follower_user(&bob).into_storage_key(), expected);
    assert_eq!(expected.len(), 37);
}

#[test]
fn collections_of_an_account_live_under_its_keys() {
    let bob = AccountId::from_str("bob.near");
    let alice = AccountId::from_str("alice.near");
    let context = Context::new(bob.clone(), 0);
    let mut contract = Contract::new();
    contract.create_post(&context, "x".into()).unwrap();
    contract.follow(&context, alice.clone());

    let mut bob_key = vec![2, 32, 0, 0, 0];
    bob_key.extend_from_slice(&BOB_HASH);
    assert_eq!(contract.user_posts().get(&bob).unwrap().storage_prefix(), &bob_key);
    bob_key[0] = 4;
    assert_eq!(
        contract.graph().followings_of(&bob).unwrap().as_vector().storage_prefix(),
        &bob_key
    );
    let mut alice_key = vec![6, 32, 0, 0, 0];
    alice_key.extend_from_slice(&ALICE_HASH);
    assert_eq!(
        contract.graph().followers_of(&alice).unwrap().as_vector().storage_prefix(),
        &alice_key
    );
    assert_eq!(contract.ledger().posts().storage_prefix(), &vec![0]);
}

#[test]
fn account_set_keeps_each_account_once() {
    let a = AccountId::from_str("a");
    let b = AccountId::from_str("b");
    let c = AccountId::from_str("c");
    let mut set = AccountSet::new(vec![4]);
    assert_eq!(set.len(), 0);
    assert!(set.insert(a.clone()));
    assert!(set.insert(b.clone()));
    assert!(!set.insert(a.clone()));
    assert!(set.insert(c.clone()));
    assert_eq!(set.len(), 3);
    assert!(set.contains(&b));
    assert!(set.remove(&a));
    assert!(!set.remove(&a));
    assert!(!set.contains(&a));
    assert_eq!(set.len(), 2);
    assert_eq!(set.as_vector().get(0).unwrap(), &b);
    assert_eq!(set.as_vector().get(1).unwrap(), &c);
    assert!(set.insert(a.clone()));
    assert_eq!(set.as_vector().get(2).unwrap(), &a);
}

#[test]
fn account_map_has_one_entry_for_each_account() {
    let a = AccountId::from_str("a");
    let b = AccountId::from_str("b");
    let mut map: AccountMap<u64> = AccountMap::new(vec![1]);
    assert_eq!(map.len(), 0);
    assert!(map.get(&a).is_none());
    map.insert(a.clone(), 1);
    map.insert(b.clone(), 2);
    map.insert(a.clone(), 3);
    assert_eq!(map.len(), 2);
    assert_eq!(map.get(&a), Some(&3));
    assert_eq!(map.get(&b), Some(&2));
    assert!(map.contains_key(&b));
    assert!(!map.contains_key(&AccountId::from_str("c")));
    assert_eq!(map.position(&b), Some(1));
    *map.value_mut(1) = 9;
    assert_eq!(map.get(&b), Some(&9));
    assert_eq!(map.storage_prefix(), &vec![1]);
}
