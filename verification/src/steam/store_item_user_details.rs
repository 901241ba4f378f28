use crate::steam::user::SteamId;
use vstd::prelude::*;

verus! {

/// A friend who owns an item, with playtimes in minutes.
#[derive(Debug, Clone, Copy, PartialEq, Eq, Structural)]
pub struct FriendOwn {
    pub id: SteamId,
    pub playtime_twoweeks: u16,
    pub playtime_total: u32,
}

/// A friend who has an item on their wishlist.
#[derive(Debug, Clone, Copy, PartialEq, Eq, Structural)]
pub struct FriendWant {
    pub id: SteamId,
}

/// What the viewer's friends have to do with one store item.
#[derive(Debug)]
pub struct StoreItemUserDetails {
    pub friends_own: Vec<FriendOwn>,
    pub friends_want: Vec<FriendWant>,
}

impl Clone for StoreItemUserDetails {
    fn clone(&self) -> (copy: Self)
        ensures
            copy.friends_own@ == self.friends_own@,
            copy.friends_want@ == self.friends_want@,
    {
        let mut friends_own: Vec<FriendOwn> = Vec::new();
        let mut i: usize = 0;
        while i < self.friends_own.len()
            invariant
                i <= self.friends_own.len(),
                friends_own@ == self.friends_own@.take(i as int),
            decreases self.friends_own.len() - i,
        {
            friends_own.push(self.friends_own[i]);
            i += 1;
            proof {
                assert(friends_own@ =~= self.friends_own@.take(i as int));
            }
        }
        let mut friends_want: Vec<FriendWant> = Vec::new();
        let mut j: usize = 0;
        while j < self.friends_want.len()
            invariant
                j <= self.friends_want.len(),
                i == self.friends_own.len(),
                friends_own@ == self.friends_own@.take(i as int),
                friends_want@ == self.friends_want@.take(j as int),
            decreases self.friends_want.len() - j,
        {
            friends_want.push(self.friends_want[j]);
            j += 1;
            proof {
                assert(friends_want@ =~= self.friends_want@.take(j as int));
            }
        }
        proof {
            assert(self.friends_own@.take(i as int) == self.friends_own@);
            assert(self.friends_want@.take(j as int) == self.friends_want@);
        }
        StoreItemUserDetails { friends_own, friends_want }
    }
}

/// The details behind an optional reference.
pub open spec fn details_of(details: Option<&StoreItemUserDetails>) -> Option<
    StoreItemUserDetails,
> {
    match details {
        Some(d) => Some(*d),
        None => None,
    }
}

/// The first entry of `owners` that belongs to `id`, if there is one.
pub open spec fn ownership_of(owners: Seq<FriendOwn>, id: SteamId) -> Option<FriendOwn>
    decreases owners.len(),
{
    if owners.len() == 0 {
        None
    } else if owners[0].id == id {
        Some(owners[0])
    } else {
        ownership_of(owners.drop_first(), id)
    }
}

/// Whether some entry of `wishers` belongs to `id`.
pub open spec fn wished_by(wishers: Seq<FriendWant>, id: SteamId) -> bool {
    exists|i: int| 0 <= i < wishers.len() && (#[trigger] wishers[i]).id == id
}

impl StoreItemUserDetails {
    /// Looks up the ownership entry of `id`.
    pub fn find_owner(&self, id: SteamId) -> (found: Option<FriendOwn>)
        ensures
            found == ownership_of(self.friends_own@, id),
    {
        let mut i: usize = 0;
        proof {
            assert(self.friends_own@.skip(0) == self.friends_own@);
        }
        while i < self.friends_own.len()
            invariant
                i <= self.friends_own.len(),
                ownership_of(self.friends_own@, id) == ownership_of(
                    self.friends_own@.skip(i as int),
                    id,
                ),
            decreases self.friends_own.len() - i,
        {
            let entry = self.friends_own[i];
            if entry.id.0 == id.0 {
                return Some(entry);
            }
            proof {
                assert(self.friends_own@.skip(i as int).drop_first() == self.friends_own@.skip(
                    i + 1,
                ));
            }
            i += 1;
        }
        None
    }

    /// Whether `id` has the item on their wishlist.
    pub fn is_wished_by(&self, id: SteamId) -> (wished: bool)
        ensures
            wished == wished_by(self.friends_want@, id),
    {
        let mut i: usize = 0;
        while i < self.friends_want.len()
            invariant
                i <= self.friends_want.len(),
                forall|k: int| 0 <= k < i ==> (#[trigger] self.friends_want@[k]).id != id,
            decreases self.friends_want.len() - i,
        {
            if self.friends_want[i].id.0 == id.0 {
                return true;
            }
            i += 1;
        }
        false
    }
}

} // verus!
