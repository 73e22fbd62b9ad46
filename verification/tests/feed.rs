use social_feed::{AccountId, Context, Contract};

fn get_context() -> Context {
    Context::new(AccountId::from_str("bob.near"), 0)
}

#[test]
fn test_create_post() {
    let context = get_context();
    let mut contract = Contract::default();
    let account = AccountId::from_str("bob.near");

    let first = contract.create_post(&context, "hello post1".into()).unwrap();
    assert_eq!(first.id(), 0);
    assert_eq!(contract.ledger().len(), 1);
    assert_eq!(contract.user_posts().len(), 1);
    assert_eq!(contract.user_posts().get(&account).unwrap().len(), 1);

    let second = contract.create_post(&context, "hello post2".into()).unwrap();
    assert_eq!(second.id(), 1);
    assert_eq!(contract.ledger().len(), 2);
    assert_eq!(contract.user_posts().len(), 1);
    assert_eq!(contract.user_posts().get(&account).unwrap().len(), 2);
}

#[test]
fn test_timeline() {
    let context = get_context();
    let mut contract = Contract::default();

    let posts = contract.public_timeline(0, 10).unwrap();
    assert!(posts.is_empty());
    let posts = contract.public_timeline(1, 10).unwrap();

    assert!(posts.is_empty());

    for i in 0..13 {
        contract.create_post(&context, format!("post {}", i)).unwrap();
    }
    assert_eq!(contract.ledger().len(), 13);

    let total_page = 7u64;
    let page_size: u64 = 3;

    for i in 1..total_page {
        let posts = contract.public_timeline(i, page_size).unwrap();
        println!("public timeline page {}", i);
        for post in posts {
            println!("  post: {:?}", post)
        }
    }

    for i in 1..total_page {
        let posts = contract
            .user_timeline(AccountId::from_str("bob.near"), i, page_size)
            .unwrap();
        println!("user_timeline page {}", i);
        for post in posts {
            println!("  post: {:?}", post)
        }
    }
}

#[test]
fn test_follow() {
    let context = get_context();
    let me = AccountId::from_str("bob.near");
    let user = AccountId::from_str("alice.near");

    let mut contract = Contract::default();

    contract.follow(&context, user.clone());

    let followings = contract.graph().followings_of(&me).unwrap();
    assert_eq!(followings.len(), 1);
    assert!(followings.contains(&user));

    let followers = contract.graph().followers_of(&user).unwrap();
    assert_eq!(followers.len(), 1);
    assert!(followers.contains(&me));

    // test interface

    let user2 = AccountId::from_str("user2.near");

    contract.follow(&context, user2.clone());
    let followings = contract.followings(me.clone(), 1, 100).unwrap();
    assert_eq!(followings.len(), 2);
    // descending
    assert_eq!(followings[0], user2.clone());
    assert_eq!(followings[1], user.clone());

    let followers = contract.followers(me.clone(), 1, 100).unwrap();
    assert_eq!(followers.len(), 0);

    let followers = contract.followers(user.clone(), 1, 100).unwrap();
    assert_eq!(followers.len(), 1);
    assert_eq!(followers[0], me.clone());

    // unfollow
    contract.unfollow(&context, user.clone());
    let followings = contract.followings(me.clone(), 1, 100).unwrap();
    assert_eq!(followings.len(), 1);
    // descending
    assert_eq!(followings[0], user2.clone());

    let followers = contract.followers(user.clone(), 1, 100).unwrap();
    assert_eq!(followers.len(), 0);
}

fn ids(contract: &Contract, page: u64, page_size: u64) -> Vec<u64> {
    contract
        .public_timeline(page, page_size)
        .unwrap()
        .iter()
        .map(|post| post.id())
        .collect()
}

fn thirteen_posts() -> Contract {
    let context = get_context();
    let mut contract = Contract::new();
    for i in 0..13 {
        contract.create_post(&context, format!("post {}", i)).unwrap();
    }
    contract
}

#[test]
fn ids_count_up_from_zero() {
    let bob = Context::new(AccountId::from_str("bob.near"), 5);
    let alice = Context::new(AccountId::from_str("alice.near"), 6);
    let mut contract = Contract::new();
    for i in 0..20u64 {
        let context = if i % 3 == 0 { &alice } else { &bob };
        let post = contract.create_post(context, format!("n{}", i)).unwrap();
        assert_eq!(post.id(), i);
        assert_eq!(contract.ledger().get(i).unwrap().id(), i);
    }
    assert!(contract.ledger().get(20).is_none());
}

#[test]
fn refused_post_uses_no_id() {
    let context = get_context();
    let mut contract = Contract::new();
    assert_eq!(contract.create_post(&context, "a".into()).unwrap().id(), 0);
    assert!(contract.create_post(&context, "x".repeat(301)).is_err());
    assert_eq!(contract.ledger().len(), 1);
    assert_eq!(contract.user_posts().get(&AccountId::from_str("bob.near")).unwrap().len(), 1);
    assert_eq!(contract.create_post(&context, "b".into()).unwrap().id(), 1);
}

#[test]
fn post_keeps_what_it_was_given() {
    let context = Context::new(AccountId::from_str("bob.near"), 1_700_000_000_000_000_000);
    let mut contract = Contract::new();
    let post = contract.create_post(&context, "hello".into()).unwrap();
    assert_eq!(post.id(), 0);
    assert_eq!(post.content(), "hello");
    assert_eq!(post.user().as_str(), "bob.near");
    assert_eq!(post.created_at(), 1_700_000_000_000_000_000);
    let stored = contract.ledger().get(0).unwrap();
    assert_eq!(stored.content(), "hello");
    assert_eq!(stored.user(), &AccountId::from_str("bob.near"));
    assert_eq!(stored.created_at(), 1_700_000_000_000_000_000);
}

#[test]
fn content_of_300_bytes_is_accepted_and_301_refused() {
    let context = get_context();
    let mut contract = Contract::new();
    let post = contract.create_post(&context, "x".repeat(300));
    assert!(post.is_ok());
    let refused = contract.create_post(&context, "x".repeat(301));
    assert_eq!(refused.unwrap_err(), social_feed::FeedError::ContentTooLong);
    assert_eq!(contract.ledger().len(), 1);
}

#[test]
fn content_is_measured_in_bytes() {
    let context = get_context();
    let mut contract = Contract::new();
    // 150 characters of two bytes each
    assert!(contract.create_post(&context, "é".repeat(150)).is_ok());
    // 151 characters, 302 bytes
    assert_eq!(
        contract.create_post(&context, "é".repeat(151)).unwrap_err(),
        social_feed::FeedError::ContentTooLong
    );
    assert!(contract.create_post(&context, String::new()).is_ok());
}

#[test]
fn pages_of_thirteen_posts() {
    let contract = thirteen_posts();
    assert_eq!(ids(&contract, 1, 3), vec![12, 11, 10]);
    assert_eq!(ids(&contract, 2, 3), vec![9, 8, 7]);
    assert_eq!(ids(&contract, 3, 3), vec![6, 5, 4]);
    assert_eq!(ids(&contract, 4, 3), vec![3, 2, 1]);
    assert_eq!(ids(&contract, 5, 3), vec![0]);
    assert_eq!(ids(&contract, 6, 3), Vec::<u64>::new());
    assert_eq!(ids(&contract, 0, 3), ids(&contract, 1, 3));
}

#[test]
fn page_far_beyond_the_data_is_empty() {
    let contract = thirteen_posts();
    assert!(ids(&contract, u64::MAX, 100).is_empty());
    assert!(ids(&contract, u64::MAX, 1).is_empty());
    assert!(ids(&contract, 14, 1).is_empty());
    assert_eq!(ids(&contract, 13, 1), vec![0]);
}

#[test]
fn page_of_size_zero_is_empty() {
    let contract = thirteen_posts();
    assert!(ids(&contract, 1, 0).is_empty());
    assert!(ids(&contract, 0, 0).is_empty());
}

#[test]
fn page_size_of_100_is_accepted_and_101_refused() {
    let contract = thirteen_posts();
    assert_eq!(ids(&contract, 1, 100).len(), 13);
    assert_eq!(
        contract.public_timeline(1, 101).unwrap_err(),
        social_feed::FeedError::PageSizeExceeded
    );
    let bob = AccountId::from_str("bob.near");
    assert_eq!(contract.user_timeline(bob.clone(), 1, 100).unwrap().len(), 13);
    assert_eq!(
        contract.user_timeline(bob, 1, 101).unwrap_err(),
        social_feed::FeedError::PageSizeExceeded
    );
}

#[test]
fn follow_lists_refuse_a_page_size_of_101() {
    let context = get_context();
    let mut contract = Contract::new();
    contract.follow(&context, AccountId::from_str("alice.near"));
    let bob = AccountId::from_str("bob.near");
    let alice = AccountId::from_str("alice.near");
    assert!(contract.followings(bob.clone(), 1, 100).is_ok());
    assert_eq!(
        contract.followings(bob, 1, 101).unwrap_err(),
        social_feed::FeedError::PageSizeExceeded
    );
    assert!(contract.followers(alice.clone(), 1, 100).is_ok());
    assert_eq!(
        contract.followers(alice, 1, 101).unwrap_err(),
        social_feed::FeedError::PageSizeExceeded
    );
}

#[test]
fn user_timeline_holds_only_the_posts_of_the_user() {
    let bob = Context::new(AccountId::from_str("bob.near"), 1);
    let alice = Context::new(AccountId::from_str("alice.near"), 2);
    let mut contract = Contract::new();
    contract.create_post(&bob, "b0".into()).unwrap();
    contract.create_post(&alice, "a1".into()).unwrap();
    contract.create_post(&bob, "b2".into()).unwrap();
    contract.create_post(&bob, "b3".into()).unwrap();
    contract.create_post(&alice, "a4".into()).unwrap();

    let of_bob: Vec<u64> = contract
        .user_timeline(AccountId::from_str("bob.near"), 1, 2)
        .unwrap()
        .iter()
        .map(|post| post.id())
        .collect();
    assert_eq!(of_bob, vec![3, 2]);
    let rest: Vec<String> = contract
        .user_timeline(AccountId::from_str("bob.near"), 2, 2)
        .unwrap()
        .iter()
        .map(|post| post.content().to_string())
        .collect();
    assert_eq!(rest, vec!["b0".to_string()]);
    let of_alice: Vec<u64> = contract
        .user_timeline(AccountId::from_str("alice.near"), 0, 10)
        .unwrap()
        .iter()
        .map(|post| post.id())
        .collect();
    assert_eq!(of_alice, vec![4, 1]);
    assert_eq!(contract.user_posts().list(&AccountId::from_str("bob.near")), vec![0, 2, 3]);
    assert_eq!(contract.user_posts().list(&AccountId::from_str("alice.near")), vec![1, 4]);
    assert_eq!(contract.user_posts().len(), 2);
}

#[test]
fn unknown_user_reads_are_empty() {
    let contract = thirteen_posts();
    let nobody = AccountId::from_str("nobody.near");
    assert!(contract.user_timeline(nobody.clone(), 1, 10).unwrap().is_empty());
    assert!(contract.followings(nobody.clone(), 1, 10).unwrap().is_empty());
    assert!(contract.followers(nobody.clone(), 1, 10).unwrap().is_empty());
    assert!(contract.user_posts().list(&nobody).is_empty());
    assert!(contract.user_posts().get(&nobody).is_none());
    assert!(contract.graph().list_followings(&nobody).is_empty());
    assert!(contract.graph().list_followers(&nobody).is_empty());
    assert!(!contract.is_follow(nobody.clone(), AccountId::from_str("bob.near")));
    assert!(!contract.is_follow(AccountId::from_str("bob.near"), nobody));
}

#[test]
fn unknown_user_reads_keep_the_page_size_bound() {
    let contract = thirteen_posts();
    let nobody = AccountId::from_str("nobody.near");
    assert!(contract.user_timeline(nobody.clone(), 1, 100).unwrap().is_empty());
    assert!(contract.followings(nobody.clone(), 1, 100).unwrap().is_empty());
    assert!(contract.followers(nobody.clone(), 1, 100).unwrap().is_empty());
    assert_eq!(
        contract.user_timeline(nobody.clone(), 1, 101).unwrap_err(),
        social_feed::FeedError::PageSizeExceeded
    );
    assert_eq!(
        contract.followings(nobody.clone(), 1, 101).unwrap_err(),
        social_feed::FeedError::PageSizeExceeded
    );
    assert_eq!(
        contract.followers(nobody, 1, 101).unwrap_err(),
        social_feed::FeedError::PageSizeExceeded
    );
    let empty = Contract::default();
    assert_eq!(
        empty.user_timeline(AccountId::from_str("alice.near"), 1, 101).unwrap_err(),
        social_feed::FeedError::PageSizeExceeded
    );
}

#[test]
fn page_answers_are_the_same_after_follow_and_unfollow() {
    let context = get_context();
    let bob = AccountId::from_str("bob.near");
    let alice = AccountId::from_str("alice.near");
    let mut contract = Contract::new();
    let before_ok = contract.followings(bob.clone(), 1, 100).unwrap();
    let before_err = contract.followings(bob.clone(), 1, 101).unwrap_err();
    let followers_before = contract.followers(alice.clone(), 1, 101).unwrap_err();
    contract.follow(&context, alice.clone());
    contract.unfollow(&context, alice.clone());
    assert_eq!(contract.followings(bob.clone(), 1, 100).unwrap(), before_ok);
    assert_eq!(contract.followings(bob.clone(), 1, 101).unwrap_err(), before_err);
    assert_eq!(contract.followers(alice.clone(), 1, 101).unwrap_err(), followers_before);
    assert!(contract.followers(alice.clone(), 1, 100).unwrap().is_empty());
    assert!(!contract.is_follow(bob, alice));
}

#[test]
fn follow_is_seen_from_both_sides() {
    let context = get_context();
    let bob = AccountId::from_str("bob.near");
    let alice = AccountId::from_str("alice.near");
    let mut contract = Contract::new();
    assert!(!contract.is_follow(bob.clone(), alice.clone()));
    contract.follow(&context, alice.clone());
    assert!(contract.is_follow(bob.clone(), alice.clone()));
    assert!(!contract.is_follow(alice.clone(), bob.clone()));
    assert_eq!(contract.followers(alice.clone(), 1, 10).unwrap(), vec![bob.clone()]);
    assert_eq!(contract.graph().list_followers(&alice), vec![bob.clone()]);
    assert_eq!(contract.graph().list_followings(&bob), vec![alice]);
}

#[test]
fn follow_twice_is_follow_once() {
    let context = get_context();
    let bob = AccountId::from_str("bob.near");
    let a = AccountId::from_str("a.near");
    let b = AccountId::from_str("b.near");
    let c = AccountId::from_str("c.near");
    let mut contract = Contract::new();
    contract.follow(&context, a.clone());
    contract.follow(&context, b.clone());
    contract.follow(&context, c.clone());
    contract.follow(&context, a.clone());
    contract.follow(&context, b.clone());
    assert_eq!(
        contract.graph().list_followings(&bob),
        vec![a.clone(), b.clone(), c.clone()]
    );
    assert_eq!(contract.followings(bob.clone(), 1, 10).unwrap(), vec![c, b, a.clone()]);
    assert_eq!(contract.graph().list_followers(&a), vec![bob]);
}

#[test]
fn unfollow_without_an_edge_changes_nothing() {
    let context = get_context();
    let bob = AccountId::from_str("bob.near");
    let a = AccountId::from_str("a.near");
    let b = AccountId::from_str("b.near");
    let mut contract = Contract::new();
    contract.unfollow(&context, a.clone());
    assert!(contract.graph().followings_of(&bob).is_none());
    assert!(contract.graph().followers_of(&a).is_none());
    contract.follow(&context, a.clone());
    contract.unfollow(&context, b.clone());
    assert_eq!(contract.graph().list_followings(&bob), vec![a.clone()]);
    assert_eq!(contract.graph().list_followers(&a), vec![bob]);
    assert!(contract.graph().followers_of(&b).is_none());
}

#[test]
fn unfollow_keeps_the_order_of_the_others() {
    let context = get_context();
    let bob = AccountId::from_str("bob.near");
    let names = ["a.near", "b.near", "c.near", "d.near"];
    let mut contract = Contract::new();
    for name in names {
        contract.follow(&context, AccountId::from_str(name));
    }
    contract.unfollow(&context, AccountId::from_str("b.near"));
    let left: Vec<String> = contract
        .graph()
        .list_followings(&bob)
        .iter()
        .map(|account| account.as_str().to_string())
        .collect();
    assert_eq!(left, vec!["a.near", "c.near", "d.near"]);
    assert!(!contract.is_follow(bob.clone(), AccountId::from_str("b.near")));
    assert!(contract.followers(AccountId::from_str("b.near"), 1, 10).unwrap().is_empty());
    contract.follow(&context, AccountId::from_str("b.near"));
    let again: Vec<String> = contract
        .followings(bob, 1, 2)
        .unwrap()
        .iter()
        .map(|account| account.as_str().to_string())
        .collect();
    assert_eq!(again, vec!["b.near", "d.near"]);
}

#[test]
fn an_account_may_follow_itself() {
    let context = get_context();
    let bob = AccountId::from_str("bob.near");
    let mut contract = Contract::new();
    contract.follow(&context, bob.clone());
    assert!(contract.is_follow(bob.clone(), bob.clone()));
    assert_eq!(contract.followings(bob.clone(), 1, 10).unwrap(), vec![bob.clone()]);
    assert_eq!(contract.followers(bob.clone(), 1, 10).unwrap(), vec![bob.clone()]);
    contract.unfollow(&context, bob.clone());
    assert!(!contract.is_follow(bob.clone(), bob.clone()));
    assert!(contract.followers(bob, 1, 10).unwrap().is_empty());
}

#[test]
fn followers_come_newest_first() {
    let alice = AccountId::from_str("alice.near");
    let mut contract = Contract::new();
    for name in ["u1.near", "u2.near", "u3.near"] {
        let context = Context::new(AccountId::from_str(name), 0);
        contract.follow(&context, alice.clone());
    }
    let names: Vec<String> = contract
        .followers(alice, 1, 2)
        .unwrap()
        .iter()
        .map(|account| account.as_str().to_string())
        .collect();
    assert_eq!(names, vec!["u3.near", "u2.near"]);
}
