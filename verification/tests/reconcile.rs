use bugcrowd_tracker::models::Hero;
use bugcrowd_tracker::poll::hall_of_fame::{find_hero, reconcile, Event, Exclusion};

fn hero(username: &str, points: u64, rank: usize) -> Hero {
    Hero {
        accent_color: None,
        avatar: format!("https://avatars.example/{username}.png"),
        points,
        profile_url: Some(format!("/h/{username}")),
        username: username.to_string(),
        rank,
    }
}

fn board() -> Vec<Hero> {
    vec![hero("ada", 120, 1), hero("bob", 80, 2), hero("cy", 80, 3), hero("dee", 5, 4)]
}

#[test]
fn reconciling_a_leaderboard_with_itself_yields_nothing() {
    let r = reconcile(board(), board(), &Exclusion::none());
    assert!(r.events.is_empty());
    assert_eq!(r.snapshot, board());

    let empty = reconcile(vec![], vec![], &Exclusion::none());
    assert!(empty.events.is_empty());
    assert!(empty.snapshot.is_empty());
}

#[test]
fn one_removed_entry_yields_one_removal() {
    for at in 0..board().len() {
        let mut fresh = board();
        let gone = fresh.remove(at);
        let r = reconcile(fresh.clone(), board(), &Exclusion::none());
        assert_eq!(r.events, vec![Event::HeroRemoved(gone)]);
        assert_eq!(r.snapshot, fresh);
    }
}

#[test]
fn one_new_entry_yields_one_addition() {
    for at in 0..=board().len() {
        let mut fresh = board();
        fresh.insert(at, hero("eve", 100, 9));
        let r = reconcile(fresh.clone(), board(), &Exclusion::none());
        assert_eq!(r.events, vec![Event::HeroAdded(hero("eve", 100, 9))]);
        assert_eq!(r.snapshot, fresh);
    }
}

#[test]
fn changed_points_yield_one_update_and_changed_rank_alone_nothing() {
    let mut fresh = board();
    fresh[1].points = 95;
    let r = reconcile(fresh, board(), &Exclusion::none());
    assert_eq!(r.events, vec![Event::HeroUpdated(hero("bob", 80, 2), hero("bob", 95, 2))]);
    match &r.events[0] {
        Event::HeroUpdated(old, new) => assert_ne!(old.points, new.points),
        other => panic!("unexpected event {other:?}"),
    }

    let mut moved = board();
    moved[1].rank = 3;
    moved[2].rank = 2;
    let r = reconcile(moved.clone(), board(), &Exclusion::none());
    assert!(r.events.is_empty());
    assert_eq!(r.snapshot, moved);
}

#[test]
fn additions_and_updates_come_in_fresh_order() {
    let snapshot = vec![hero("a", 40, 1)];
    let fresh = vec![hero("a", 80, 1), hero("b", 10, 2)];
    let r = reconcile(fresh.clone(), snapshot, &Exclusion::none());
    assert_eq!(
        r.events,
        vec![
            Event::HeroUpdated(hero("a", 40, 1), hero("a", 80, 1)),
            Event::HeroAdded(hero("b", 10, 2)),
        ]
    );
    assert_eq!(r.snapshot, fresh);

    let fresh = vec![hero("b", 10, 1), hero("a", 80, 2)];
    let r = reconcile(fresh, vec![hero("a", 40, 1)], &Exclusion::none());
    assert_eq!(
        r.events,
        vec![
            Event::HeroAdded(hero("b", 10, 1)),
            Event::HeroUpdated(hero("a", 40, 1), hero("a", 80, 2)),
        ]
    );
}

#[test]
fn removals_follow_every_addition_and_update_in_snapshot_order() {
    let snapshot = vec![hero("x", 1, 1), hero("a", 40, 2), hero("y", 2, 3), hero("z", 3, 4)];
    let fresh = vec![hero("n", 7, 1), hero("a", 41, 2), hero("y", 2, 3)];
    let r = reconcile(fresh, snapshot, &Exclusion::none());
    assert_eq!(
        r.events,
        vec![
            Event::HeroAdded(hero("n", 7, 1)),
            Event::HeroUpdated(hero("a", 40, 2), hero("a", 41, 2)),
            Event::HeroRemoved(hero("x", 1, 1)),
            Event::HeroRemoved(hero("z", 3, 4)),
        ]
    );
    let first_removal = r.events.iter().position(|e| matches!(e, Event::HeroRemoved(_))).unwrap();
    assert!(r.events[first_removal..].iter().all(|e| matches!(e, Event::HeroRemoved(_))));
}

#[test]
fn excluded_researchers_are_still_added_and_removed_but_never_updated() {
    let exclusion = Exclusion::of("anonymous".to_string());
    let snapshot = vec![hero("anonymous", 10, 1), hero("bob", 5, 2)];
    let fresh = vec![hero("anonymous", 30, 1), hero("bob", 6, 2)];
    let r = reconcile(fresh, snapshot, &exclusion);
    assert_eq!(r.events, vec![Event::HeroUpdated(hero("bob", 5, 2), hero("bob", 6, 2))]);

    let r = reconcile(vec![hero("anonymous", 30, 1)], vec![], &exclusion);
    assert_eq!(r.events, vec![Event::HeroAdded(hero("anonymous", 30, 1))]);

    let r = reconcile(vec![], vec![hero("anonymous", 30, 1)], &exclusion);
    assert_eq!(r.events, vec![Event::HeroRemoved(hero("anonymous", 30, 1))]);

    let r = reconcile(vec![hero("anonymous", 30, 1)], vec![hero("anonymous", 10, 1)], &Exclusion::none());
    assert_eq!(
        r.events,
        vec![Event::HeroUpdated(hero("anonymous", 10, 1), hero("anonymous", 30, 1))]
    );
}

#[test]
fn entries_of_one_researcher_are_matched_first_come_first() {
    let snapshot = vec![hero("twin", 10, 1), hero("twin", 20, 2)];
    let fresh = vec![hero("twin", 20, 1)];
    let r = reconcile(fresh, snapshot, &Exclusion::none());
    assert_eq!(
        r.events,
        vec![
            Event::HeroUpdated(hero("twin", 10, 1), hero("twin", 20, 1)),
            Event::HeroRemoved(hero("twin", 20, 2)),
        ]
    );

    let same = vec![hero("twin", 10, 1), hero("twin", 20, 2)];
    let r = reconcile(same.clone(), same, &Exclusion::none());
    assert!(r.events.is_empty());
}

#[test]
fn exclusion_covers_exactly_the_listed_usernames() {
    let exclusion = Exclusion { usernames: vec!["a".to_string(), "b".to_string()] };
    assert!(exclusion.is_excluded(&hero("a", 1, 1)));
    assert!(exclusion.is_excluded(&hero("b", 1, 1)));
    assert!(!exclusion.is_excluded(&hero("ab", 1, 1)));
    assert!(!Exclusion::none().is_excluded(&hero("a", 1, 1)));
    assert!(Exclusion::of("a".to_string()).is_excluded(&hero("a", 1, 1)));
    assert!(!Exclusion::of("a".to_string()).is_excluded(&hero("A", 1, 1)));
}

#[test]
fn find_hero_gives_the_first_position_of_a_username() {
    let list = vec![hero("a", 1, 1), hero("b", 2, 2), hero("a", 3, 3)];
    assert_eq!(find_hero(&list, &"a".to_string()), Some(0));
    assert_eq!(find_hero(&list, &"b".to_string()), Some(1));
    assert_eq!(find_hero(&list, &"c".to_string()), None);
    assert_eq!(find_hero(&vec![], &"a".to_string()), None);
}
