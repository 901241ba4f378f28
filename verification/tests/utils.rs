use steam_giveaway_tool::giveaway::Preferences;
use steam_giveaway_tool::utils::{decimal_string, pluralize};

#[test]
fn counts_ending_in_one_take_the_word_as_it_is() {
    assert_eq!(pluralize("time", 1), "1 time");
    assert_eq!(pluralize("time", 21), "21 time");
    assert_eq!(pluralize("time", 101), "101 time");
    assert_eq!(pluralize("winner", 1001), "1001 winner");
}

#[test]
fn other_counts_take_an_s() {
    assert_eq!(pluralize("time", 0), "0 times");
    assert_eq!(pluralize("time", 2), "2 times");
    assert_eq!(pluralize("time", 10), "10 times");
    assert_eq!(pluralize("time", 11), "11 times");
    assert_eq!(pluralize("time", 111), "111 times");
    assert_eq!(pluralize("time", 211), "211 times");
    assert_eq!(pluralize("", 5), "5 s");
}

#[test]
fn numbers_are_written_in_decimal() {
    for n in [0u64, 1, 9, 10, 99, 100, 12345, 1_000_000, u64::MAX] {
        assert_eq!(decimal_string(n), n.to_string());
    }
}

#[test]
fn everything_is_shown_by_default() {
    let preferences = Preferences::default();
    assert!(preferences.avatars);
    assert!(preferences.flags_icons);
    assert!(preferences.store_items_capsules);
}
