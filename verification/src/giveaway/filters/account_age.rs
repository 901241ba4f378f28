use crate::clock::{unix_now, whole_years_between, years_since};
use crate::giveaway::filters::settings::Filters;
use crate::giveaway::retain::{keep_marked, lemma_filter_keeps_all, lemma_marked_is_filter};
use crate::steam::SteamUser;
use vstd::prelude::*;

verus! {

/// Whether the pass is engaged: a threshold is set, or members of unknown age
/// are to go.
pub open spec fn age_engaged(account_age: u32, exclude_unknown_age: bool) -> bool {
    account_age > 0 || exclude_unknown_age
}

/// Whether an account that has existed for `years` whole years has existed
/// for at least `account_age`. One without a number of years has not.
pub open spec fn years_suffice(account_age: u32, years: Option<u32>) -> bool {
    match years {
        Some(years) => years >= account_age,
        None => false,
    }
}

/// Whether `user` is old enough at `now`. An account of known creation date
/// needs at least `account_age` whole years; one of unknown date stays unless
/// `exclude_unknown_age` is set.
pub open spec fn old_enough(
    account_age: u32,
    exclude_unknown_age: bool,
    now: i64,
    user: SteamUser,
) -> bool {
    match user.created_at {
        Some(created_at) => years_suffice(account_age, whole_years_between(now, created_at)),
        None => !exclude_unknown_age,
    }
}

/// Decides `years_suffice`.
pub fn has_years(account_age: u32, years: Option<u32>) -> (enough: bool)
    ensures
        enough == years_suffice(account_age, years),
{
    match years {
        Some(years) => years >= account_age,
        None => false,
    }
}

/// The rule of this pass at `now`, as a predicate on members.
pub open spec fn age_rule(account_age: u32, exclude_unknown_age: bool, now: i64) -> spec_fn(
    SteamUser,
) -> bool {
    |user: SteamUser|
        age_engaged(account_age, exclude_unknown_age) ==> old_enough(
            account_age,
            exclude_unknown_age,
            now,
            user,
        )
}

/// Decides `old_enough` for one member.
pub fn is_old_enough(account_age: u32, exclude_unknown_age: bool, now: i64, user: &SteamUser) -> (enough: bool)
    ensures
        enough == old_enough(account_age, exclude_unknown_age, now, *user),
{
    match user.created_at {
        Some(created_at) => has_years(account_age, years_since(now, created_at)),
        None => !exclude_unknown_age,
    }
}

/// The account-age pass at a given instant. Leaves the roster as it is when
/// the pass is not engaged.
pub fn apply_account_age_filter_at(friends: &mut Vec<SteamUser>, filters: &Filters, now: i64)
    ensures
        final(friends)@ == old(friends)@.filter(
            age_rule(filters.account_age, filters.exclude_unknown_age, now),
        ),
{
    let ghost rule = age_rule(filters.account_age, filters.exclude_unknown_age, now);
    if filters.account_age == 0 && !filters.exclude_unknown_age {
        proof {
            lemma_filter_keeps_all(friends@, rule);
        }
        return ;
    }
    let mut marks: Vec<bool> = Vec::new();
    let mut i: usize = 0;
    while i < friends.len()
        invariant
            i <= friends.len(),
            marks.len() == i,
            forall|k: int|
                0 <= k < i ==> marks@[k] == old_enough(
                    filters.account_age,
                    filters.exclude_unknown_age,
                    now,
                    #[trigger] friends@[k],
                ),
        decreases friends.len() - i,
    {
        marks.push(
            is_old_enough(filters.account_age, filters.exclude_unknown_age, now, &friends[i]),
        );
        i += 1;
    }
    keep_marked(friends, &marks);
    proof {
        lemma_marked_is_filter(old(friends)@, marks@, rule);
    }
}

/// The account-age pass at the instant the wall clock shows when it runs.
pub fn apply_account_age_filter(friends: &mut Vec<SteamUser>, filters: &Filters)
    ensures
        exists|now: i64|
            final(friends)@ == old(friends)@.filter(
                #[trigger] age_rule(filters.account_age, filters.exclude_unknown_age, now),
            ),
{
    let now = unix_now();
    apply_account_age_filter_at(friends, filters, now);
}

} // verus!
