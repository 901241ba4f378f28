use steam_giveaway_tool::steam::{
    FriendOwn, Price, SteamId, SteamStoreItem, StoreItemId, StoreItemKind, StoreItemUserDetails,
};
use steam_giveaway_tool::ui::{SearchSelect, SearchSelectResponse};

fn found(id: u32, kind: StoreItemKind, price: Option<u32>) -> SteamStoreItem {
    SteamStoreItem {
        kind,
        id: StoreItemId(id),
        name: format!("item{id}"),
        capsule_url: format!("https://example.invalid/{id}.jpg"),
        price: price.map(|value_in_cents| Price { currency: "EUR".to_string(), value_in_cents }),
        user_details: None,
    }
}

#[test]
fn search_starts_empty() {
    let search = SearchSelect::new();
    assert_eq!(search.term, "");
    assert!(search.results.is_empty());
    assert!(!search.is_loading);
}

#[test]
fn terms_of_white_space_ask_for_no_search() {
    let mut search = SearchSelect::new();
    assert!(!search.edit_term("  \t".to_string()));
    assert!(!search.is_loading);
    assert_eq!(search.term, "  \t");
    assert!(search.edit_term(" portal ".to_string()));
    assert!(search.is_loading);
    assert_eq!(search.term, " portal ");
    assert!(!search.edit_term(String::new()));
    assert!(search.is_loading);
}

#[test]
fn only_applications_become_results() {
    let mut search = SearchSelect::new();
    search.edit_term("x".to_string());
    search.receive(vec![
        found(1, StoreItemKind::Sub, Some(100)),
        found(2, StoreItemKind::App, Some(100)),
        found(3, StoreItemKind::Unknown, None),
        found(4, StoreItemKind::App, None),
        found(5, StoreItemKind::App, Some(0)),
        found(6, StoreItemKind::Sub, None),
    ]);
    assert!(!search.is_loading);
    assert_eq!(search.term, "x");
    assert_eq!(search.results.iter().map(|i| i.id.0).collect::<Vec<_>>(), vec![2, 4, 5]);
    search.receive(Vec::new());
    assert!(search.results.is_empty());
}

#[test]
fn only_priced_results_can_be_selected() {
    let mut search = SearchSelect::new();
    let mut with_details = found(2, StoreItemKind::App, Some(1999));
    with_details.user_details = Some(StoreItemUserDetails {
        friends_own: vec![FriendOwn { id: SteamId(1), playtime_twoweeks: 2, playtime_total: 3 }],
        friends_want: vec![],
    });
    search.receive(vec![with_details, found(4, StoreItemKind::App, None)]);

    let mut selected = None;
    assert_eq!(search.select(1, &mut selected), SearchSelectResponse { changed: false });
    assert!(selected.is_none());
    assert_eq!(search.select(2, &mut selected), SearchSelectResponse { changed: false });
    assert!(selected.is_none());
    assert_eq!(search.select(0, &mut selected), SearchSelectResponse { changed: true });
    let item = selected.as_ref().unwrap();
    assert_eq!(item.id, StoreItemId(2));
    assert_eq!(item.name, "item2");
    assert_eq!(item.capsule_url, "https://example.invalid/2.jpg");
    assert_eq!(item.kind, StoreItemKind::App);
    assert_eq!(item.price.as_ref().unwrap().currency, "EUR");
    assert_eq!(item.price.as_ref().unwrap().value_in_cents, 1999);
    assert_eq!(item.user_details.as_ref().unwrap().friends_own.len(), 1);
    assert_eq!(item.user_details.as_ref().unwrap().friends_own[0].playtime_total, 3);

    assert_eq!(search.select(1, &mut selected), SearchSelectResponse { changed: false });
    assert_eq!(selected.as_ref().unwrap().id, StoreItemId(2));
}

#[test]
fn taken_terms_follow_what_they_are_told() {
    let mut search = SearchSelect::new();
    assert!(!search.take_term("abc".to_string(), true));
    assert!(!search.is_loading);
    assert!(search.take_term("".to_string(), false));
    assert!(search.is_loading);
    assert_eq!(search.term, "");
}
