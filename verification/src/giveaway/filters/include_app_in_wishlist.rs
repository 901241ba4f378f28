use crate::giveaway::retain::{keep_marked, lemma_marked_is_filter};
use crate::steam::store_item_user_details::{details_of, wished_by};
use crate::steam::{SteamUser, StoreItemUserDetails};
use vstd::prelude::*;

verus! {

/// The rule of this pass for loaded details: the member wishes for the item.
pub open spec fn wishes_rule(details: StoreItemUserDetails) -> spec_fn(SteamUser) -> bool {
    |user: SteamUser| wished_by(details.friends_want@, user.id)
}

/// What the pass leaves of `roster`: with details loaded, the members on the
/// item's wishlist; without, all of it.
pub open spec fn wishlist_filtered(
    roster: Seq<SteamUser>,
    details: Option<StoreItemUserDetails>,
) -> Seq<SteamUser> {
    match details {
        Some(d) => roster.filter(wishes_rule(d)),
        None => roster,
    }
}

/// Keeps the members that have the giveaway item on their wishlist. Does
/// nothing while the item's details are not loaded.
pub fn include_who_has_store_item_in_wishlist(
    friends: &mut Vec<SteamUser>,
    store_item_user_details: Option<&StoreItemUserDetails>,
)
    ensures
        final(friends)@ == wishlist_filtered(
            old(friends)@,
            details_of(store_item_user_details),
        ),
{
    if let Some(details) = store_item_user_details {
        let mut marks: Vec<bool> = Vec::new();
        let mut i: usize = 0;
        while i < friends.len()
            invariant
                i <= friends.len(),
                marks.len() == i,
                forall|k: int|
                    0 <= k < i ==> marks@[k] == wished_by(
                        details.friends_want@,
                        (#[trigger] friends@[k]).id,
                    ),
            decreases friends.len() - i,
        {
            marks.push(details.is_wished_by(friends[i].id));
            i += 1;
        }
        keep_marked(friends, &marks);
        proof {
            lemma_marked_is_filter(old(friends)@, marks@, wishes_rule(*details));
        }
    }
}

} // verus!
