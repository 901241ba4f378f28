use crate::giveaway::retain::{keep_marked, lemma_filter_keeps_all, lemma_marked_is_filter};
use crate::steam::store_item_user_details::ownership_of;
use crate::steam::{SteamStoreItem, SteamUser};
use vstd::prelude::*;

verus! {

/// A demand that members own an item and have played it long enough.
/// Playtimes are in hours.
#[derive(Debug)]
pub struct HasAppFilter {
    pub app: Option<SteamStoreItem>,
    pub playtime_twoweeks: u16,
    pub playtime_total: u32,
    pub is_loading: bool,
}

impl HasAppFilter {
    /// Whether both filters refer to an item, and to the same one.
    pub open spec fn duplicates(&self, other: &HasAppFilter) -> bool {
        self.app is Some && other.app is Some && self.app.unwrap().key()
            == other.app.unwrap().key()
    }

    /// Whether the filter constrains the roster: it is not loading, and the
    /// ownership details of its item are there.
    pub open spec fn constrains(&self) -> bool {
        !self.is_loading && self.app is Some && self.app.unwrap().user_details is Some
    }

    /// Whether `user` owns the filter's item and has played it for at least
    /// the hours asked, in total and in the last two weeks.
    pub open spec fn met_by(&self, user: SteamUser) -> bool
        recommends
            self.constrains(),
    {
        match ownership_of(self.app.unwrap().user_details.unwrap().friends_own@, user.id) {
            Some(own) => own.playtime_total >= 60 * self.playtime_total && own.playtime_twoweeks
                >= 60 * self.playtime_twoweeks,
            None => false,
        }
    }

    /// Decides `duplicates`.
    pub fn is_duplicate_of(&self, other: &HasAppFilter) -> (same: bool)
        ensures
            same == self.duplicates(other),
    {
        match (&self.app, &other.app) {
            (Some(mine), Some(theirs)) => mine.same_item(theirs),
            _ => false,
        }
    }
}

impl PartialEq for HasAppFilter {
    fn eq(&self, other: &Self) -> (same: bool) {
        self.is_duplicate_of(other)
    }
}

impl vstd::std_specs::cmp::PartialEqSpecImpl for HasAppFilter {
    open spec fn obeys_eq_spec() -> bool {
        true
    }

    open spec fn eq_spec(&self, other: &Self) -> bool {
        self.duplicates(other)
    }
}

impl Default for HasAppFilter {
    fn default() -> (filter: Self)
        ensures
            filter.app is None,
            filter.playtime_twoweeks == 0,
            filter.playtime_total == 0,
            !filter.is_loading,
    {
        HasAppFilter { app: None, playtime_twoweeks: 0, playtime_total: 0, is_loading: false }
    }
}

/// Whether `user` meets every filter that constrains.
pub open spec fn owns_enough(filters: Seq<HasAppFilter>, user: SteamUser) -> bool {
    forall|i: int|
        0 <= i < filters.len() && (#[trigger] filters[i]).constrains() ==> filters[i].met_by(user)
}

/// The rule of the ownership pass, as a predicate on members.
pub open spec fn ownership_rule(filters: Seq<HasAppFilter>) -> spec_fn(SteamUser) -> bool {
    |user: SteamUser| owns_enough(filters, user)
}

/// Decides `owns_enough` for one member.
pub fn has_enough(filters: &[HasAppFilter], user: &SteamUser) -> (enough: bool)
    ensures
        enough == owns_enough(filters@, *user),
{
    let mut i: usize = 0;
    while i < filters.len()
        invariant
            i <= filters.len(),
            forall|k: int|
                0 <= k < i && (#[trigger] filters@[k]).constrains() ==> filters@[k].met_by(*user),
        decreases filters.len() - i,
    {
        let filter = &filters[i];
        if !filter.is_loading {
            if let Some(app) = &filter.app {
                if let Some(details) = &app.user_details {
                    match details.find_owner(user.id) {
                        Some(own) => {
                            let total: u64 = own.playtime_total as u64;
                            let recent: u64 = own.playtime_twoweeks as u64;
                            if total < 60 * (filter.playtime_total as u64) || recent < 60 * (
                            filter.playtime_twoweeks as u64) {
                                return false;
                            }
                        },
                        None => {
                            return false;
                        },
                    }
                }
            }
        }
        i += 1;
    }
    true
}

/// The ownership pass: a member stays only if it meets every filter that
/// constrains. Filters that are loading, or whose item has no details yet,
/// ask nothing.
pub fn apply_has_app_filters(friends: &mut Vec<SteamUser>, filters: &[HasAppFilter])
    ensures
        final(friends)@ == old(friends)@.filter(ownership_rule(filters@)),
{
    if filters.len() == 0 {
        proof {
            lemma_filter_keeps_all(friends@, ownership_rule(filters@));
        }
        return ;
    }
    let mut marks: Vec<bool> = Vec::new();
    let mut i: usize = 0;
    while i < friends.len()
        invariant
            i <= friends.len(),
            marks.len() == i,
            forall|k: int| 0 <= k < i ==> marks@[k] == owns_enough(filters@, #[trigger] friends@[k]),
        decreases friends.len() - i,
    {
        marks.push(has_enough(filters, &friends[i]));
        i += 1;
    }
    keep_marked(friends, &marks);
    proof {
        lemma_marked_is_filter(old(friends)@, marks@, ownership_rule(filters@));
    }
}

} // verus!
