use crate::giveaway::retain::{keep_marked, lemma_marked_is_filter};
use crate::giveaway::winners::Winners;
use crate::steam::SteamUser;
use vstd::prelude::*;

verus! {

/// Whether `user` has no entry in the ledger `wins`.
pub open spec fn never_won(wins: Map<u64, usize>, user: SteamUser) -> bool {
    !wins.contains_key(user.id.0)
}

/// The rule of this pass, as a predicate on members.
pub open spec fn never_won_rule(wins: Map<u64, usize>) -> spec_fn(SteamUser) -> bool {
    |user: SteamUser| never_won(wins, user)
}

/// Drops every member that has an entry in the ledger, whatever its count.
pub fn exclude_who_won_before(friends: &mut Vec<SteamUser>, winners: &Winners)
    ensures
        final(friends)@ == old(friends)@.filter(never_won_rule(winners.all_time@)),
{
    broadcast use vstd::std_specs::hash::group_hash_axioms;

    let mut marks: Vec<bool> = Vec::new();
    let mut i: usize = 0;
    while i < friends.len()
        invariant
            i <= friends.len(),
            marks.len() == i,
            forall|k: int|
                0 <= k < i ==> marks@[k] == never_won(winners.all_time@, #[trigger] friends@[k]),
        decreases friends.len() - i,
    {
        let won = winners.all_time.contains_key(&friends[i].id.0);
        marks.push(!won);
        i += 1;
    }
    keep_marked(friends, &marks);
    proof {
        lemma_marked_is_filter(old(friends)@, marks@, never_won_rule(winners.all_time@));
    }
}

} // verus!
