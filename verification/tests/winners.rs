use std::collections::HashMap;

use steam_giveaway_tool::giveaway::winners::draw_from;
use steam_giveaway_tool::giveaway::{Friends, Winners};
use steam_giveaway_tool::steam::{SteamId, SteamUser};

fn user(id: u64) -> SteamUser {
    SteamUser {
        id: SteamId(id),
        name: format!("user{id}"),
        avatar_url: format!("https://example.invalid/{id}.jpg"),
        country_code: None,
        created_at: None,
    }
}

fn friends_with(count: u64) -> Friends {
    let mut friends = Friends::default();
    friends.filtered = (1..=count).map(user).collect();
    friends
}

fn sorted_ids(users: &[SteamUser]) -> Vec<u64> {
    let mut ids: Vec<u64> = users.iter().map(|u| u.id.0).collect();
    ids.sort();
    ids
}

#[test]
fn draw_takes_the_number_asked_for() {
    let friends = friends_with(20);
    let mut winners = Winners::default();
    for amount in [1usize, 2, 7, 19, 20] {
        winners.next_number = amount;
        winners.update_current(&friends);
        assert_eq!(winners.current.len(), amount);
        let mut ids = sorted_ids(&winners.current);
        ids.dedup();
        assert_eq!(ids.len(), amount);
        assert!(ids.iter().all(|id| (1..=20).contains(id)));
        assert!(!winners.saved);
        assert!(winners.all_time.is_empty());
        assert_eq!(winners.next_number, amount);
    }
}

#[test]
fn draw_takes_everyone_when_more_are_asked_for() {
    let friends = friends_with(5);
    let mut winners = Winners::default();
    winners.next_number = 8;
    winners.update_current(&friends);
    assert_eq!(sorted_ids(&winners.current), vec![1, 2, 3, 4, 5]);
    assert_eq!(winners.current.iter().find(|u| u.id.0 == 3).unwrap().name, "user3");
}

#[test]
fn draw_from_an_empty_roster_is_empty() {
    let mut winners = Winners::default();
    winners.next_number = 1;
    winners.current = vec![user(1)];
    winners.saved = true;
    winners.update_current(&Friends::default());
    assert!(winners.current.is_empty());
    assert!(!winners.saved);
}

#[test]
fn draw_reaches_every_member_sooner_or_later() {
    let friends = friends_with(4);
    let mut winners = Winners::default();
    winners.next_number = 1;
    let mut seen = [false; 4];
    for _ in 0..2000 {
        winners.update_current(&friends);
        seen[(winners.current[0].id.0 - 1) as usize] = true;
    }
    assert_eq!(seen, [true; 4]);
}

#[test]
fn draw_is_saved_at_once_when_asked_to() {
    let friends = friends_with(3);
    let mut winners = Winners::default();
    winners.auto_save_current = true;
    winners.next_number = 2;
    winners.all_time = HashMap::from([(1, 4), (9, 1)]);
    winners.update_current(&friends);
    assert!(winners.saved);
    assert!(winners.auto_save_current);
    assert_eq!(winners.current.len(), 2);
    for id in 1..=3u64 {
        let drawn = winners.current.iter().any(|u| u.id.0 == id);
        let before = if id == 1 { 4 } else { 0 };
        let after = winners.all_time.get(&id).copied().unwrap_or(0);
        assert_eq!(after, before + usize::from(drawn));
        assert_eq!(winners.all_time.contains_key(&id), drawn || id == 1);
    }
    assert_eq!(winners.all_time.get(&9), Some(&1));
}

#[test]
fn picked_positions_give_the_members_in_order() {
    let roster: Vec<SteamUser> = (10..15).map(user).collect();
    let drawn = draw_from(&roster, &vec![4, 0, 2]);
    assert_eq!(drawn.iter().map(|u| u.id.0).collect::<Vec<_>>(), vec![14, 10, 12]);
    assert_eq!(drawn[0].avatar_url, "https://example.invalid/14.jpg");
    assert!(draw_from(&roster, &Vec::new()).is_empty());
}

#[test]
fn saving_adds_one_win_for_each_member_of_the_draw() {
    let mut winners = Winners::default();
    winners.all_time = HashMap::from([(1, 2), (5, 1)]);
    winners.current = vec![user(1), user(2), user(3)];
    winners.save_current();
    assert!(winners.saved);
    assert_eq!(winners.all_time, HashMap::from([(1, 3), (2, 1), (3, 1), (5, 1)]));
    assert_eq!(winners.current.len(), 3);
}

#[test]
fn saving_twice_counts_twice() {
    let mut winners = Winners::default();
    winners.current = vec![user(1)];
    winners.save_current();
    winners.save_current();
    assert_eq!(winners.all_time, HashMap::from([(1, 2)]));
}

#[test]
fn saving_counts_a_member_as_often_as_it_was_drawn() {
    let mut winners = Winners::default();
    winners.current = vec![user(1), user(2), user(1)];
    winners.save_current();
    assert_eq!(winners.all_time, HashMap::from([(1, 2), (2, 1)]));
}

#[test]
fn saving_an_empty_draw_only_marks_it() {
    let mut winners = Winners::default();
    winners.all_time = HashMap::from([(1, 2)]);
    winners.save_current();
    assert!(winners.saved);
    assert_eq!(winners.all_time, HashMap::from([(1, 2)]));
}

#[test]
fn recorded_draw_follows_the_saving_mode() {
    let mut winners = Winners::default();
    winners.saved = true;
    winners.record_draw(vec![user(3)]);
    assert!(!winners.saved);
    assert!(winners.all_time.is_empty());
    assert_eq!(winners.current[0].id, SteamId(3));

    winners.auto_save_current = true;
    winners.record_draw(vec![user(3), user(4)]);
    assert!(winners.saved);
    assert_eq!(winners.all_time, HashMap::from([(3, 1), (4, 1)]));
}

#[test]
fn number_of_winners_is_kept_within_the_roster() {
    let mut winners = Winners::default();
    for (number, size, expected) in
        [(0usize, 0u64, 1usize), (0, 5, 1), (1, 0, 1), (3, 5, 3), (5, 5, 5), (6, 5, 5), (9, 0, 1), (2, 1, 1)]
    {
        winners.next_number = number;
        winners.clamp_next_number(&friends_with(size));
        assert_eq!(winners.next_number, expected);
    }
}

#[test]
fn gated_saving_counts_a_draw_once() {
    let mut winners = Winners::default();
    winners.current = vec![user(1), user(2)];
    assert!(winners.save_current_once());
    assert!(!winners.save_current_once());
    assert!(winners.saved);
    assert_eq!(winners.all_time, HashMap::from([(1, 1), (2, 1)]));

    winners.record_draw(vec![user(2)]);
    assert!(winners.save_current_once());
    assert_eq!(winners.all_time, HashMap::from([(1, 1), (2, 2)]));
}

#[test]
fn wins_are_shown_with_their_word() {
    let mut winners = Winners::default();
    winners.all_time = HashMap::from([(1, 1), (2, 2), (3, 11), (4, 21), (5, 0)]);
    assert_eq!(winners.wins_label(SteamId(1)), "1 time");
    assert_eq!(winners.wins_label(SteamId(2)), "2 times");
    assert_eq!(winners.wins_label(SteamId(3)), "11 times");
    assert_eq!(winners.wins_label(SteamId(4)), "21 time");
    assert_eq!(winners.wins_label(SteamId(5)), "0 times");
    assert_eq!(winners.wins_label(SteamId(6)), "Never");
}
