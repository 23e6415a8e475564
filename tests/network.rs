use social_network::{Error, ErrorKind, Event, Like, SocialNetwork, Tip, User};

fn s(x: &str) -> String {
    x.to_string()
}

fn add_user(net: &mut SocialNetwork, name: &str, key: &str) -> User {
    net.create_user(s(name), s("avatar.png"), s("bio"), s(key), None).unwrap()
}

#[test]
fn init_is_empty() {
    let net = SocialNetwork::init();
    assert_eq!(net.get_post_count().unwrap(), 0);
    assert!(net.get_all_users().unwrap().is_empty());
    assert!(net.get_all_posts().unwrap().is_empty());
    assert!(net.events().is_empty());
}

#[test]
fn user_ids_count_up_from_one() {
    let mut net = SocialNetwork::init();
    let ids: Vec<String> = (0..3).map(|i| add_user(&mut net, "u", &format!("pk{i}")).id).collect();
    assert_eq!(ids, vec![s("1"), s("2"), s("3")]);
}

#[test]
fn user_ids_reach_two_digits() {
    let mut net = SocialNetwork::init();
    let mut last = String::new();
    for i in 0..12 {
        last = add_user(&mut net, "u", &format!("pk{i}")).id;
    }
    assert_eq!(last, "12");
    assert_eq!(net.get_all_users().unwrap().len(), 12);
}

#[test]
fn user_ids_not_reused_after_post_deletion() {
    let mut net = SocialNetwork::init();
    add_user(&mut net, "a", "k1");
    let p = net.create_post_at(s("1"), s("x"), 5).unwrap();
    net.delete_post(p.id, s("1")).unwrap();
    assert_eq!(add_user(&mut net, "b", "k2").id, "2");
    let p2 = net.create_post_at(s("2"), s("y"), 6).unwrap();
    assert_eq!(p2.id, "2");
}

#[test]
fn duplicate_public_key_is_a_conflict() {
    let mut net = SocialNetwork::init();
    add_user(&mut net, "a", "key");
    let events_before = net.events().len();
    let e = net.create_user(s("b"), s(""), s(""), s("key"), None).unwrap_err();
    assert_eq!(e, Error::PublicKeyTaken(s("key")));
    assert_eq!(e.kind(), ErrorKind::Conflict);
    assert_eq!(net.get_all_users().unwrap().len(), 1);
    assert_eq!(net.events().len(), events_before);
    assert_eq!(add_user(&mut net, "c", "other").id, "2");
}

#[test]
fn create_user_emits_event() {
    let mut net = SocialNetwork::init();
    add_user(&mut net, "Alice", "k");
    assert_eq!(net.events(), &vec![Event::UserCreated { id: s("1"), name: s("Alice") }]);
}

#[test]
fn user_round_trip() {
    let mut net = SocialNetwork::init();
    let u = net
        .create_user(s("Alice"), s("a.png"), s("hello"), s("pk"), Some(s("0xabc")))
        .unwrap();
    let got = net.get_user("1").unwrap();
    assert_eq!(got, u);
    assert_eq!(got.name, "Alice");
    assert_eq!(got.avatar, "a.png");
    assert_eq!(got.bio, "hello");
    assert_eq!(got.wallet_address, Some(s("0xabc")));
    assert_eq!(net.get_user_by_public_key(s("pk")).unwrap(), u);
}

#[test]
fn post_round_trip() {
    let mut net = SocialNetwork::init();
    net.create_user(s("Alice"), s("a.png"), s("b"), s("pk"), Some(s("0xw"))).unwrap();
    let p = net.create_post_at(s("1"), s("hello world"), 42).unwrap();
    let got = net.get_post("1").unwrap();
    assert_eq!(got, p);
    assert_eq!(got.author_id, "1");
    assert_eq!(got.content, "hello world");
    assert_eq!(got.timestamp, 42);
    assert_eq!(got.author_name, "Alice");
    assert_eq!(got.author_avatar, "a.png");
    assert_eq!(got.author_wallet_address, Some(s("0xw")));
    assert!(got.likes.is_empty() && got.tips.is_empty());
    assert_eq!(
        net.events().last().unwrap(),
        &Event::PostCreated { id: s("1"), author_id: s("1"), content: s("hello world"), timestamp: 42 }
    );
}

#[test]
fn missing_user_lookups_fail() {
    let mut net = SocialNetwork::init();
    assert_eq!(net.get_user("7").unwrap_err(), Error::UserNotFound(s("7")));
    assert_eq!(net.get_user_by_public_key(s("nope")).unwrap_err(), Error::UserNotFound(s("nope")));
    assert!(!net.check_public_key_registered(s("nope")).unwrap());
    add_user(&mut net, "a", "yes");
    assert!(net.check_public_key_registered(s("yes")).unwrap());
}

#[test]
fn create_post_requires_author() {
    let mut net = SocialNetwork::init();
    let e = net.create_post_at(s("9"), s("x"), 1).unwrap_err();
    assert_eq!(e, Error::UserNotFound(s("9")));
    assert_eq!(e.kind(), ErrorKind::NotFound);
    assert_eq!(net.get_post_count().unwrap(), 0);
}

#[test]
fn scenario_rename_then_like() {
    let mut net = SocialNetwork::init();
    let u = add_user(&mut net, "Alice", "k");
    assert_eq!(u.id, "1");
    let p = net.create_post_at(s("1"), s("hi"), 100).unwrap();
    assert_eq!(p.id, "1");
    assert_eq!(p.author_name, "Alice");
    net.update_user(s("1"), s("Bob"), s("bio"), None).unwrap();
    assert_eq!(net.get_post("1").unwrap().author_name, "Bob");
    let liked = net.like_post_at(s("1"), s("1"), 200).unwrap();
    assert_eq!(liked.likes, vec![Like { user_id: s("1"), user_name: s("Bob"), timestamp: 200 }]);
}

#[test]
fn update_user_rewrites_only_own_posts() {
    let mut net = SocialNetwork::init();
    add_user(&mut net, "A", "k1");
    add_user(&mut net, "B", "k2");
    net.create_post_at(s("1"), s("a1"), 1).unwrap();
    net.create_post_at(s("2"), s("b1"), 2).unwrap();
    net.create_post_at(s("1"), s("a2"), 3).unwrap();
    let u = net.update_user(s("1"), s("Z"), s("new bio"), Some(s("w"))).unwrap();
    assert_eq!(u.name, "Z");
    assert_eq!(u.bio, "new bio");
    assert_eq!(u.avatar, "avatar.png");
    assert_eq!(u.wallet_address, Some(s("w")));
    assert_eq!(net.get_post("1").unwrap().author_name, "Z");
    assert_eq!(net.get_post("2").unwrap().author_name, "B");
    assert_eq!(net.get_post("3").unwrap().author_name, "Z");
    assert_eq!(net.get_post("1").unwrap().author_wallet_address, None);
    assert_eq!(
        net.events().last().unwrap(),
        &Event::UserUpdated { id: s("1"), name: s("Z"), bio: s("new bio") }
    );
    assert_eq!(net.update_user(s("5"), s("x"), s("y"), None).unwrap_err(), Error::UserNotFound(s("5")));
}

#[test]
fn like_twice_keeps_one_like() {
    let mut net = SocialNetwork::init();
    add_user(&mut net, "A", "k");
    net.create_post_at(s("1"), s("x"), 1).unwrap();
    let first = net.like_post_at(s("1"), s("1"), 10).unwrap();
    let events_after_first = net.take_events();
    assert_eq!(
        events_after_first.last().unwrap(),
        &Event::PostLiked { id: s("1"), user_id: s("1"), user_name: s("A") }
    );
    let second = net.like_post_at(s("1"), s("1"), 20).unwrap();
    assert_eq!(first, second);
    assert_eq!(second.likes.len(), 1);
    assert!(net.events().is_empty());
    assert_eq!(net.get_post("1").unwrap().likes.len(), 1);
}

#[test]
fn like_errors() {
    let mut net = SocialNetwork::init();
    add_user(&mut net, "A", "k");
    assert_eq!(net.like_post_at(s("1"), s("1"), 1).unwrap_err(), Error::PostNotFound(s("1")));
    net.create_post_at(s("1"), s("x"), 1).unwrap();
    assert_eq!(net.like_post_at(s("1"), s("2"), 1).unwrap_err(), Error::UserNotFound(s("2")));
}

#[test]
fn unlike_without_like_still_emits() {
    let mut net = SocialNetwork::init();
    add_user(&mut net, "A", "k1");
    add_user(&mut net, "B", "k2");
    net.create_post_at(s("1"), s("x"), 1).unwrap();
    net.like_post_at(s("1"), s("2"), 5).unwrap();
    let before = net.get_post("1").unwrap().likes;
    let p = net.unlike_post(s("1"), s("1")).unwrap();
    assert_eq!(p.likes, before);
    assert_eq!(net.events().last().unwrap(), &Event::PostUnliked { id: s("1"), user_id: s("1") });
}

#[test]
fn unlike_removes_like() {
    let mut net = SocialNetwork::init();
    add_user(&mut net, "A", "k1");
    add_user(&mut net, "B", "k2");
    net.create_post_at(s("1"), s("x"), 1).unwrap();
    net.like_post_at(s("1"), s("1"), 5).unwrap();
    net.like_post_at(s("1"), s("2"), 6).unwrap();
    assert!(net.check_user_liked_post(s("1"), s("1")).unwrap());
    let p = net.unlike_post(s("1"), s("1")).unwrap();
    assert_eq!(p.likes, vec![Like { user_id: s("2"), user_name: s("B"), timestamp: 6 }]);
    assert!(!net.check_user_liked_post(s("1"), s("1")).unwrap());
    assert_eq!(net.unlike_post(s("9"), s("1")).unwrap_err(), Error::PostNotFound(s("9")));
    assert_eq!(net.check_user_liked_post(s("9"), s("1")).unwrap_err(), Error::PostNotFound(s("9")));
}

#[test]
fn tips_are_all_recorded() {
    let mut net = SocialNetwork::init();
    add_user(&mut net, "A", "k1");
    add_user(&mut net, "B", "k2");
    net.create_post_at(s("1"), s("x"), 1).unwrap();
    net.record_tip_at(s("1"), s("2"), s("1.50"), s("0xh"), 7).unwrap();
    let p = net.record_tip_at(s("1"), s("2"), s("1.50"), s("0xh"), 8).unwrap();
    assert_eq!(p.tips.len(), 2);
    assert_eq!(
        p.tips[1],
        Tip { user_id: s("2"), user_name: s("B"), amount_usdc: s("1.50"), timestamp: 8, tx_hash: s("0xh") }
    );
    assert_eq!(
        net.events().last().unwrap(),
        &Event::TipSent {
            post_id: s("1"),
            tipper_id: s("2"),
            tipper_name: s("B"),
            amount_usdc: s("1.50"),
            tx_hash: s("0xh"),
        }
    );
    assert_eq!(net.record_tip_at(s("2"), s("2"), s("1"), s("h"), 1).unwrap_err(), Error::PostNotFound(s("2")));
    assert_eq!(net.record_tip_at(s("1"), s("3"), s("1"), s("h"), 1).unwrap_err(), Error::UserNotFound(s("3")));
}

#[test]
fn follow_and_unfollow() {
    let mut net = SocialNetwork::init();
    add_user(&mut net, "A", "k1");
    add_user(&mut net, "B", "k2");
    net.follow_user(s("1"), s("2")).unwrap();
    assert!(net.is_following(s("1"), s("2")).unwrap());
    assert!(!net.is_following(s("2"), s("1")).unwrap());
    assert_eq!(net.get_followers(s("2")).unwrap(), vec![s("1")]);
    assert_eq!(net.get_following(s("1")).unwrap(), vec![s("2")]);
    assert_eq!(net.get_follower_count(s("2")).unwrap(), 1);
    assert_eq!(net.get_following_count(s("1")).unwrap(), 1);
    assert_eq!(
        net.events().last().unwrap(),
        &Event::UserFollowed { follower_id: s("1"), followee_id: s("2") }
    );
    net.unfollow_user(s("1"), s("2")).unwrap();
    assert!(!net.is_following(s("1"), s("2")).unwrap());
    assert!(net.get_followers(s("2")).unwrap().is_empty());
    assert!(net.get_following(s("1")).unwrap().is_empty());
    assert_eq!(net.get_follower_count(s("2")).unwrap(), 0);
}

#[test]
fn follow_errors() {
    let mut net = SocialNetwork::init();
    add_user(&mut net, "A", "k1");
    add_user(&mut net, "B", "k2");
    let e = net.follow_user(s("1"), s("1")).unwrap_err();
    assert_eq!(e, Error::SelfFollow(s("1")));
    assert_eq!(e.kind(), ErrorKind::Conflict);
    assert_eq!(net.get_following_count(s("1")).unwrap(), 0);
    assert_eq!(net.follow_user(s("3"), s("1")).unwrap_err(), Error::UserNotFound(s("3")));
    assert_eq!(net.follow_user(s("1"), s("3")).unwrap_err(), Error::UserNotFound(s("3")));
    net.follow_user(s("1"), s("2")).unwrap();
    let e = net.follow_user(s("1"), s("2")).unwrap_err();
    assert_eq!(e, Error::AlreadyFollowing(s("1"), s("2")));
    assert_eq!(e.kind(), ErrorKind::Conflict);
    assert_eq!(net.get_followers(s("2")).unwrap(), vec![s("1")]);
}

#[test]
fn unfollow_without_edge_emits() {
    let mut net = SocialNetwork::init();
    net.unfollow_user(s("8"), s("9")).unwrap();
    assert_eq!(net.events(), &vec![Event::UserUnfollowed { follower_id: s("8"), followee_id: s("9") }]);
    assert_eq!(net.get_follower_count(s("9")).unwrap(), 0);
}

#[test]
fn delete_post_then_get_fails() {
    let mut net = SocialNetwork::init();
    add_user(&mut net, "A", "k1");
    add_user(&mut net, "B", "k2");
    net.create_post_at(s("1"), s("x"), 1).unwrap();
    let e = net.delete_post(s("1"), s("2")).unwrap_err();
    assert_eq!(e, Error::NotPostAuthor(s("1"), s("2")));
    assert_eq!(e.kind(), ErrorKind::Unauthorized);
    assert!(net.get_post("1").is_ok());
    net.delete_post(s("1"), s("1")).unwrap();
    assert_eq!(net.events().last().unwrap(), &Event::PostDeleted { id: s("1"), author_id: s("1") });
    assert_eq!(net.get_post("1").unwrap_err(), Error::PostNotFound(s("1")));
    assert_eq!(net.get_post_count().unwrap(), 1);
    assert_eq!(net.delete_post(s("1"), s("1")).unwrap_err(), Error::PostNotFound(s("1")));
}

#[test]
fn all_posts_newest_first() {
    let mut net = SocialNetwork::init();
    add_user(&mut net, "A", "k1");
    net.create_post_at(s("1"), s("a"), 5).unwrap();
    net.create_post_at(s("1"), s("b"), 9).unwrap();
    net.create_post_at(s("1"), s("c"), 5).unwrap();
    net.create_post_at(s("1"), s("d"), 7).unwrap();
    let ids: Vec<String> = net.get_all_posts().unwrap().into_iter().map(|p| p.id).collect();
    assert_eq!(ids, vec![s("2"), s("4"), s("1"), s("3")]);
    let posts = net.get_all_posts().unwrap();
    assert!(posts.windows(2).all(|w| w[0].timestamp >= w[1].timestamp));
}

#[test]
fn take_events_empties_outbox() {
    let mut net = SocialNetwork::init();
    add_user(&mut net, "A", "k1");
    net.create_post_at(s("1"), s("x"), 3).unwrap();
    let taken = net.take_events();
    assert_eq!(taken.len(), 2);
    assert!(net.events().is_empty());
    assert_eq!(net.get_post_count().unwrap(), 1);
}
