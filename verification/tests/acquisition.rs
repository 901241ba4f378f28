use steam_giveaway_tool::giveaway::regions::{comes_before, insert_code, regions_of};
use steam_giveaway_tool::giveaway::{Acquisition, Friends, Progress};
use steam_giveaway_tool::steam::{Friend, Relationship, RelationshipFilter, SteamId, SteamUser};

fn user(id: u64, country: Option<&str>) -> SteamUser {
    SteamUser {
        id: SteamId(id),
        name: format!("user{id}"),
        avatar_url: String::new(),
        country_code: country.map(|c| c.to_string()),
        created_at: None,
    }
}

fn friends(count: u64) -> Vec<Friend> {
    (1..=count).map(|id| Friend { id: SteamId(id), relationship: Relationship::Friend }).collect()
}

fn summaries(batch: &[SteamId]) -> Vec<SteamUser> {
    batch.iter().map(|id| user(id.0, if id.0 % 2 == 0 { Some("PL") } else { Some("BR") })).collect()
}

#[test]
fn ids_are_asked_for_in_batches_of_a_hundred() {
    let mut run = Acquisition::begin(&friends(250));
    assert_eq!(run.current_progress(), Progress { done: 0, total: 3 });

    let first = run.next_batch().unwrap();
    assert_eq!(first.len(), 100);
    assert_eq!(first[0], SteamId(1));
    assert_eq!(first[99], SteamId(100));
    assert_eq!(run.record(Some(summaries(&first))), Progress { done: 1, total: 3 });

    let second = run.next_batch().unwrap();
    assert_eq!(second.len(), 100);
    assert_eq!(second[0], SteamId(101));
    assert_eq!(run.record(Some(summaries(&second))), Progress { done: 2, total: 3 });

    let third = run.next_batch().unwrap();
    assert_eq!(third.len(), 50);
    assert_eq!(third[0], SteamId(201));
    assert_eq!(third[49], SteamId(250));
    assert_eq!(run.record(Some(summaries(&third))), Progress { done: 3, total: 3 });

    assert_eq!(run.next_batch(), None);
    let loaded = run.finish();
    assert_eq!(loaded.0.len(), 250);
    assert_eq!(loaded.0[0].id, SteamId(1));
    assert_eq!(loaded.0[249].id, SteamId(250));
    assert_eq!(loaded.1, vec!["BR".to_string(), "PL".to_string()]);
}

#[test]
fn a_full_last_batch_is_not_followed_by_an_empty_one() {
    let mut run = Acquisition::begin(&friends(200));
    assert_eq!(run.next_batch().unwrap().len(), 100);
    assert_eq!(run.record(None), Progress { done: 1, total: 2 });
    assert_eq!(run.next_batch().unwrap().len(), 100);
    assert_eq!(run.record(None), Progress { done: 2, total: 2 });
    assert_eq!(run.next_batch(), None);
}

#[test]
fn a_failed_batch_is_skipped() {
    let mut run = Acquisition::begin(&friends(150));
    let first = run.next_batch().unwrap();
    assert_eq!(run.record(None), Progress { done: 1, total: 2 });
    let second = run.next_batch().unwrap();
    assert_eq!(first.len(), 100);
    assert_eq!(second.len(), 50);
    assert_eq!(run.record(Some(summaries(&second))), Progress { done: 2, total: 2 });
    let loaded = run.finish();
    assert_eq!(loaded.0.len(), 50);
    assert_eq!(loaded.0[0].id, SteamId(101));
}

#[test]
fn nobody_to_load_means_no_batch() {
    let run = Acquisition::begin(&Vec::new());
    assert_eq!(run.next_batch(), None);
    assert_eq!(run.current_progress(), Progress { done: 0, total: 0 });
    let loaded = run.finish();
    assert!(loaded.0.is_empty());
    assert!(loaded.1.is_empty());
}

#[test]
fn only_friends_are_loaded() {
    let list = vec![
        Friend { id: SteamId(1), relationship: Relationship::Friend },
        Friend { id: SteamId(2), relationship: Relationship::Ignored },
        Friend { id: SteamId(3), relationship: Relationship::Friend },
    ];
    let run = Acquisition::begin(&list);
    assert_eq!(run.next_batch(), Some(vec![SteamId(1), SteamId(3)]));
}

#[test]
fn regions_are_distinct_and_sorted() {
    let roster = vec![
        user(1, Some("RU")),
        user(2, None),
        user(3, Some("DE")),
        user(4, Some("RU")),
        user(5, Some("AT")),
        user(6, Some("de")),
        user(7, Some("D")),
        user(8, Some("")),
        user(9, Some("DEU")),
    ];
    let regions = regions_of(&roster);
    assert_eq!(regions, vec!["", "AT", "D", "DE", "DEU", "RU", "de"]);
    let mut expected = regions.clone();
    expected.sort();
    assert_eq!(regions, expected);
    assert!(regions_of(&vec![user(1, None)]).is_empty());
}

#[test]
fn codes_are_inserted_in_order() {
    let mut regions = vec!["B".to_string(), "D".to_string()];
    insert_code(&mut regions, &"C".to_string());
    insert_code(&mut regions, &"A".to_string());
    insert_code(&mut regions, &"E".to_string());
    insert_code(&mut regions, &"C".to_string());
    assert_eq!(regions, vec!["A", "B", "C", "D", "E"]);
}

#[test]
fn strings_are_ordered_as_the_standard_library_orders_them() {
    let samples = ["", "A", "AB", "B", "a", "\u{e9}", "\u{10000}", "\u{ffff}", "AB\u{0}", "Z"];
    for a in samples {
        for b in samples {
            assert_eq!(comes_before(a, b), a < b, "{a:?} {b:?}");
        }
    }
}

#[test]
fn loaded_roster_replaces_the_old_one() {
    let mut run = Acquisition::begin(&friends(2));
    let batch = run.next_batch().unwrap();
    run.record(Some(summaries(&batch)));
    let mut held = Friends::default();
    held.is_loading = true;
    held.loading_progress = Progress { done: 1, total: 1 };
    held.all = vec![user(9, Some("US"))];
    held.filtered = vec![user(9, Some("US"))];
    held.regions = vec!["US".to_string()];
    held.replace(run.finish());
    assert!(!held.is_loading);
    assert_eq!(held.loading_progress, Progress { done: 0, total: 0 });
    assert_eq!(held.all.iter().map(|u| u.id.0).collect::<Vec<_>>(), vec![1, 2]);
    assert_eq!(held.regions, vec!["BR", "PL"]);
    assert_eq!(held.filtered.len(), 1);
}

#[test]
fn relationship_filters_have_their_words() {
    assert_eq!(RelationshipFilter::All.as_param(), "all");
    assert_eq!(RelationshipFilter::Friend.as_param(), "friend");
    assert_eq!(RelationshipFilter::Ignored.as_param(), "ignored");
}
