use crate::clock::{unix_now, whole_years_between};
use crate::giveaway::filters::account_age::{
    age_engaged, age_rule, apply_account_age_filter_at, years_suffice,
};
use crate::giveaway::filters::exclude_won_before::{exclude_who_won_before, never_won_rule};
use crate::giveaway::filters::has_app::{apply_has_app_filters, ownership_rule};
use crate::giveaway::filters::include_app_in_wishlist::{
    include_who_has_store_item_in_wishlist, wishes_rule,
};
use crate::giveaway::filters::region::{apply_region_filters, region_rule};
use crate::giveaway::filters::settings::Filters;
use crate::giveaway::retain::{
    lemma_filter_idempotent, lemma_filter_keeps_all, lemma_filter_member, lemma_filter_twice,
};
use crate::giveaway::winners::Winners;
use crate::steam::store_item_user_details::details_of;
use crate::steam::{SteamUser, StoreItemUserDetails};
use vstd::prelude::*;

verus! {

/// How far the loading of a roster has come: `done` of `total` batches.
#[derive(Debug, Clone, Copy, PartialEq, Eq, Structural)]
pub struct Progress {
    pub done: usize,
    pub total: usize,
}

/// A roster as it came from the platform, with the country codes seen in it.
pub struct FriendsAndTheirRegions(pub Vec<SteamUser>, pub Vec<String>);

/// The full roster, the part of it that the filters leave, and the country
/// codes seen in the full roster.
pub struct Friends {
    pub all: Vec<SteamUser>,
    pub filtered: Vec<SteamUser>,
    pub regions: Vec<String>,
    pub is_loading: bool,
    pub loading_progress: Progress,
}

/// Whether `user` passes every pass that `filters` engages, with the ledger
/// `wins`, the details of the giveaway item where they are loaded, and the
/// clock at `now`.
pub open spec fn admitted(
    filters: Filters,
    wins: Map<u64, usize>,
    details: Option<StoreItemUserDetails>,
    now: i64,
    user: SteamUser,
) -> bool {
    &&& age_rule(filters.account_age, filters.exclude_unknown_age, now)(user)
    &&& filters.exclude_who_won_before ==> never_won_rule(wins)(user)
    &&& region_rule(filters.regions_and_countries)(user)
    &&& filters.include_who_has_app_in_wishlist && details is Some ==> wishes_rule(
        details.unwrap(),
    )(user)
    &&& ownership_rule(filters.has_store_items@)(user)
}

/// The rule of the whole pipeline, as a predicate on members.
pub open spec fn roster_rule(
    filters: Filters,
    wins: Map<u64, usize>,
    details: Option<StoreItemUserDetails>,
    now: i64,
) -> spec_fn(SteamUser) -> bool {
    |user: SteamUser| admitted(filters, wins, details, now, user)
}

/// With no pass configured, the pipeline hands the roster back as it is.
pub proof fn lemma_blank_filters_keep_roster(
    roster: Seq<SteamUser>,
    filters: Filters,
    wins: Map<u64, usize>,
    details: Option<StoreItemUserDetails>,
    now: i64,
)
    requires
        filters.is_blank(),
    ensures
        roster.filter(roster_rule(filters, wins, details, now)) == roster,
{
    lemma_filter_keeps_all(roster, roster_rule(filters, wins, details, now));
}

/// Whether `user` is at least `account_age` whole years old at `now`, or of
/// unknown age while such members are not excluded.
pub open spec fn of_age_or_unknown(
    account_age: u32,
    exclude_unknown_age: bool,
    now: i64,
    user: SteamUser,
) -> bool {
    match user.created_at {
        Some(created_at) => years_suffice(account_age, whole_years_between(now, created_at)),
        None => !exclude_unknown_age,
    }
}

/// Every member that the pipeline leaves is old enough, or of unknown age
/// while such members are not excluded. Where the age pass is not engaged,
/// this is said only of rosters whose known creation dates all have a number
/// of whole years up to `now`.
pub proof fn lemma_survivors_of_age(
    roster: Seq<SteamUser>,
    filters: Filters,
    wins: Map<u64, usize>,
    details: Option<StoreItemUserDetails>,
    now: i64,
    i: int,
)
    requires
        age_engaged(filters.account_age, filters.exclude_unknown_age) || forall|k: int|
            0 <= k < roster.len() && (#[trigger] roster[k]).created_at is Some
                ==> whole_years_between(now, roster[k].created_at.unwrap()) is Some,
        0 <= i < roster.filter(roster_rule(filters, wins, details, now)).len(),
    ensures
        of_age_or_unknown(
            filters.account_age,
            filters.exclude_unknown_age,
            now,
            roster.filter(roster_rule(filters, wins, details, now))[i],
        ),
{
    let rule = roster_rule(filters, wins, details, now);
    lemma_filter_member(roster, rule, i);
    let user = roster.filter(rule)[i];
    let k = choose|k: int| 0 <= k < roster.len() && roster[k] == user;
    assert(roster[k] == user);
}

/// Every member that the pipeline leaves was a member of the roster.
pub proof fn lemma_survivors_are_members(
    roster: Seq<SteamUser>,
    filters: Filters,
    wins: Map<u64, usize>,
    details: Option<StoreItemUserDetails>,
    now: i64,
    i: int,
)
    requires
        0 <= i < roster.filter(roster_rule(filters, wins, details, now)).len(),
    ensures
        roster.contains(roster.filter(roster_rule(filters, wins, details, now))[i]),
{
    lemma_filter_member(roster, roster_rule(filters, wins, details, now), i);
}

/// Running the pipeline on its own result, with the same settings, ledger,
/// details and clock, changes nothing.
pub proof fn lemma_pipeline_idempotent(
    roster: Seq<SteamUser>,
    filters: Filters,
    wins: Map<u64, usize>,
    details: Option<StoreItemUserDetails>,
    now: i64,
)
    ensures
        roster.filter(roster_rule(filters, wins, details, now)).filter(
            roster_rule(filters, wins, details, now),
        ) == roster.filter(roster_rule(filters, wins, details, now)),
{
    lemma_filter_idempotent(roster, roster_rule(filters, wins, details, now));
}

/// A copy of `roster`.
pub fn copy_roster(roster: &Vec<SteamUser>) -> (copy: Vec<SteamUser>)
    ensures
        copy@ == roster@,
{
    let mut copy: Vec<SteamUser> = Vec::new();
    let mut i: usize = 0;
    while i < roster.len()
        invariant
            i <= roster.len(),
            copy@ == roster@.take(i as int),
        decreases roster.len() - i,
    {
        copy.push(roster[i].clone());
        i += 1;
        proof {
            assert(copy@ =~= roster@.take(i as int));
        }
    }
    proof {
        assert(roster@.take(i as int) == roster@);
    }
    copy
}

/// Runs the passes over a copy of `all`, in their fixed order: account age,
/// earlier winners, regions, wishlist, ownership. The result holds the
/// members that every engaged pass admits, in roster order.
pub fn filter_roster(
    all: &Vec<SteamUser>,
    filters: &Filters,
    winners: &Winners,
    app_user_details: Option<&StoreItemUserDetails>,
    now: i64,
) -> (filtered: Vec<SteamUser>)
    ensures
        filtered@ == all@.filter(
            roster_rule(
                *filters,
                winners.all_time@,
                details_of(app_user_details),
                now,
            ),
        ),
{
    let ghost details = details_of(app_user_details);
    let ghost wins = winners.all_time@;
    let ghost always = |user: SteamUser| true;
    let ghost by_age = age_rule(filters.account_age, filters.exclude_unknown_age, now);
    let ghost by_wins = if filters.exclude_who_won_before {
        never_won_rule(wins)
    } else {
        always
    };
    let ghost by_region = region_rule(filters.regions_and_countries);
    let ghost by_wish = if filters.include_who_has_app_in_wishlist && details is Some {
        wishes_rule(details.unwrap())
    } else {
        always
    };
    let ghost by_own = ownership_rule(filters.has_store_items@);
    let ghost upto_wins = |user: SteamUser| by_age(user) && by_wins(user);
    let ghost upto_region = |user: SteamUser| upto_wins(user) && by_region(user);
    let ghost upto_wish = |user: SteamUser| upto_region(user) && by_wish(user);
    let ghost upto_own = |user: SteamUser| upto_wish(user) && by_own(user);

    let mut filtered = copy_roster(all);

    apply_account_age_filter_at(&mut filtered, filters, now);
    let ghost after_age = filtered@;

    if filters.exclude_who_won_before {
        exclude_who_won_before(&mut filtered, winners);
    }
    let ghost after_wins = filtered@;
    proof {
        if !filters.exclude_who_won_before {
            lemma_filter_keeps_all(after_age, always);
        }
        lemma_filter_twice(all@, by_age, by_wins, upto_wins);
    }

    apply_region_filters(&mut filtered, &filters.regions_and_countries);
    let ghost after_region = filtered@;
    proof {
        lemma_filter_twice(all@, upto_wins, by_region, upto_region);
    }

    if filters.include_who_has_app_in_wishlist {
        include_who_has_store_item_in_wishlist(&mut filtered, app_user_details);
    }
    proof {
        if !(filters.include_who_has_app_in_wishlist && details is Some) {
            lemma_filter_keeps_all(after_region, always);
        }
        lemma_filter_twice(all@, upto_region, by_wish, upto_wish);
    }

    apply_has_app_filters(&mut filtered, filters.has_store_items.as_slice());
    proof {
        lemma_filter_twice(all@, upto_wish, by_own, upto_own);
        lemma_filter_twice(
            all@,
            upto_own,
            always,
            roster_rule(*filters, wins, details, now),
        );
        lemma_filter_keeps_all(all@.filter(upto_own), always);
    }
    filtered
}

impl Friends {
    /// Takes a roster that has been loaded in place of the one held. The
    /// filtered roster stays as it was until it is next recomputed.
    pub fn replace(&mut self, loaded: FriendsAndTheirRegions)
        ensures
            final(self).all@ == loaded.0@,
            final(self).regions@ == loaded.1@,
            !final(self).is_loading,
            final(self).loading_progress == (Progress { done: 0, total: 0 }),
            final(self).filtered@ == old(self).filtered@,
    {
        self.is_loading = false;
        self.loading_progress = Progress { done: 0, total: 0 };
        self.all = loaded.0;
        self.regions = loaded.1;
    }

    /// Takes a newly loaded roster, and resets what referred to the old one:
    /// the region selectors, which now offer the new roster's country codes,
    /// and the ownership filters.
    pub fn reload(&mut self, filters: &mut Filters, loaded: FriendsAndTheirRegions)
        ensures
            final(self).all@ == loaded.0@,
            final(self).regions@ == loaded.1@,
            !final(self).is_loading,
            final(self).loading_progress == (Progress { done: 0, total: 0 }),
            final(self).filtered@ == old(self).filtered@,
            final(filters).regions_and_countries.is_blank(),
            final(filters).regions_and_countries.available_countries@ == loaded.1@,
            final(filters).has_store_items@.len() == 0,
            final(filters).include_who_has_app_in_wishlist == old(
                filters,
            ).include_who_has_app_in_wishlist,
            final(filters).exclude_who_won_before == old(filters).exclude_who_won_before,
            final(filters).account_age == old(filters).account_age,
            final(filters).exclude_unknown_age == old(filters).exclude_unknown_age,
    {
        self.replace(loaded);
        filters.reset_regions_and_countries(self);
        filters.has_store_items = Vec::new();
    }

    /// Recomputes the filtered roster from the full one, at the instant the
    /// wall clock shows.
    pub fn update_filtered(
        &mut self,
        filters: &Filters,
        winners: &Winners,
        app_user_details: Option<&StoreItemUserDetails>,
    )
        ensures
            exists|now: i64|
                final(self).filtered@ == old(self).all@.filter(
                    #[trigger] roster_rule(
                        *filters,
                        winners.all_time@,
                        details_of(app_user_details),
                        now,
                    ),
                ),
            final(self).all@ == old(self).all@,
            final(self).regions@ == old(self).regions@,
            final(self).is_loading == old(self).is_loading,
            final(self).loading_progress == old(self).loading_progress,
    {
        let now = unix_now();
        self.filtered = filter_roster(&self.all, filters, winners, app_user_details, now);
    }
}

impl Default for Friends {
    fn default() -> (friends: Self)
        ensures
            friends.all@.len() == 0,
            friends.filtered@.len() == 0,
            friends.regions@.len() == 0,
            !friends.is_loading,
            friends.loading_progress == (Progress { done: 0, total: 0 }),
    {
        Friends {
            all: Vec::new(),
            filtered: Vec::new(),
            regions: Vec::new(),
            is_loading: false,
            loading_progress: Progress { done: 0, total: 0 },
        }
    }
}

} // verus!
