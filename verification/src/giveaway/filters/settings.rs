use crate::giveaway::filters::has_app::HasAppFilter;
use crate::giveaway::filters::region::{RegionFilter, RegionsAndCountriesFilter};
use crate::giveaway::friends::Friends;
use crate::steam::{SteamStoreItem, StoreItemId, StoreItemUserDetails};
use vstd::prelude::*;

verus! {

/// The live configuration of every pass.
///
/// `account_age` is a number of whole years; zero means no threshold.
pub struct Filters {
    pub account_age: u32,
    pub exclude_unknown_age: bool,
    pub regions_and_countries: RegionsAndCountriesFilter,
    pub has_store_items: Vec<HasAppFilter>,
    pub include_who_has_app_in_wishlist: bool,
    pub exclude_who_won_before: bool,
}

impl Filters {
    /// Whether no pass is configured to remove anything: no age threshold,
    /// no region selector, no ownership filter that constrains, and the
    /// flags off.
    pub open spec fn is_blank(&self) -> bool {
        &&& self.account_age == 0
        &&& !self.exclude_unknown_age
        &&& self.regions_and_countries.is_blank()
        &&& forall|i: int|
            0 <= i < self.has_store_items@.len() ==> !(
            #[trigger] self.has_store_items@[i]).constrains()
        &&& !self.include_who_has_app_in_wishlist
        &&& !self.exclude_who_won_before
    }
}

/// A copy of a list of country codes.
pub fn copy_codes(codes: &Vec<String>) -> (copy: Vec<String>)
    ensures
        copy@ == codes@,
{
    let mut copy: Vec<String> = Vec::new();
    let mut i: usize = 0;
    while i < codes.len()
        invariant
            i <= codes.len(),
            copy@ == codes@.take(i as int),
        decreases codes.len() - i,
    {
        copy.push(codes[i].clone());
        i += 1;
        proof {
            assert(copy@ =~= codes@.take(i as int));
        }
    }
    proof {
        assert(codes@.take(i as int) == codes@);
    }
    copy
}

/// `filters` without each filter that duplicates the one kept before it.
pub open spec fn deduped(filters: Seq<HasAppFilter>) -> Seq<HasAppFilter>
    decreases filters.len(),
{
    if filters.len() <= 1 {
        filters
    } else {
        let kept = deduped(filters.drop_last());
        if kept.len() > 0 && filters.last().duplicates(&kept.last()) {
            kept
        } else {
            kept.push(filters.last())
        }
    }
}

/// Removing duplicates leaves the first filter in place.
pub proof fn lemma_deduped_keeps_first(filters: Seq<HasAppFilter>)
    requires
        filters.len() > 0,
    ensures
        deduped(filters).len() > 0,
        deduped(filters).len() <= filters.len(),
        deduped(filters)[0] == filters[0],
    decreases filters.len(),
{
    if filters.len() > 1 {
        lemma_deduped_keeps_first(filters.drop_last());
    }
}

/// Whether `filter` refers to the item `id`.
pub open spec fn refers_to(filter: HasAppFilter, id: StoreItemId) -> bool {
    filter.app is Some && filter.app.unwrap().id == id
}

/// The position of the first filter that refers to the item `id`, or the
/// length of the list where none does.
pub open spec fn first_for(filters: Seq<HasAppFilter>, id: StoreItemId) -> int
    decreases filters.len(),
{
    if filters.len() == 0 {
        0
    } else if refers_to(filters[0], id) {
        0
    } else {
        1 + first_for(filters.drop_first(), id)
    }
}

/// `filter` once the details of its item have come: they are attached to
/// the item, and the filter loads no longer.
pub open spec fn loaded_with(filter: HasAppFilter, details: StoreItemUserDetails) -> HasAppFilter
    recommends
        filter.app is Some,
{
    HasAppFilter {
        app: Some(SteamStoreItem { user_details: Some(details), ..filter.app.unwrap() }),
        playtime_twoweeks: filter.playtime_twoweeks,
        playtime_total: filter.playtime_total,
        is_loading: false,
    }
}

/// The first filter that refers to an item is found where no earlier one
/// refers to it.
pub proof fn lemma_first_for(filters: Seq<HasAppFilter>, id: StoreItemId, at: int)
    requires
        0 <= at <= filters.len(),
        forall|k: int| 0 <= k < at ==> !refers_to(#[trigger] filters[k], id),
        at < filters.len() ==> refers_to(filters[at], id),
    ensures
        first_for(filters, id) == at,
    decreases filters.len(),
{
    if filters.len() > 0 && at > 0 {
        let rest = filters.drop_first();
        assert forall|k: int| 0 <= k < at - 1 implies !refers_to(#[trigger] rest[k], id) by {
            assert(rest[k] == filters[k + 1]);
        }
        lemma_first_for(rest, id, at - 1);
    }
}

impl Filters {
    /// Removes each ownership filter that refers to the same item as the
    /// one kept before it. Filters without an item duplicate nothing.
    pub fn dedup_store_items(&mut self)
        ensures
            final(self).has_store_items@ == deduped(old(self).has_store_items@),
            final(self).regions_and_countries == old(self).regions_and_countries,
            final(self).include_who_has_app_in_wishlist == old(self).include_who_has_app_in_wishlist,
            final(self).exclude_who_won_before == old(self).exclude_who_won_before,
            final(self).account_age == old(self).account_age,
            final(self).exclude_unknown_age == old(self).exclude_unknown_age,
    {
        if self.has_store_items.len() <= 1 {
            return ;
        }
        let ghost before = self.has_store_items@;
        let ghost mut read: int = 1;
        let mut i: usize = 1;
        proof {
            assert(before.take(1).len() == 1);
        }
        while i < self.has_store_items.len()
            invariant
                1 <= i <= self.has_store_items.len(),
                i <= read <= before.len(),
                before == old(self).has_store_items@,
                self.has_store_items@.len() - i == before.len() - read,
                self.has_store_items@.take(i as int) == deduped(before.take(read)),
                self.has_store_items@.skip(i as int) == before.skip(read),
                self.regions_and_countries == old(self).regions_and_countries,
                self.include_who_has_app_in_wishlist == old(self).include_who_has_app_in_wishlist,
                self.exclude_who_won_before == old(self).exclude_who_won_before,
                self.account_age == old(self).account_age,
                self.exclude_unknown_age == old(self).exclude_unknown_age,
            decreases self.has_store_items.len() - i,
        {
            let ghost held = self.has_store_items@;
            proof {
                assert(before.take(read + 1).drop_last() == before.take(read));
                assert(before.take(read + 1).last() == before[read]);
                assert(held.skip(i as int)[0] == before.skip(read)[0]);
                assert(held.take(i as int).last() == held[i - 1]);
                lemma_deduped_keeps_first(before.take(read));
                assert(held.skip(i + 1) =~= held.skip(i as int).drop_first());
                assert(before.skip(read + 1) =~= before.skip(read).drop_first());
            }
            if self.has_store_items[i].is_duplicate_of(&self.has_store_items[i - 1]) {
                self.has_store_items.remove(i);
                proof {
                    assert(self.has_store_items@.take(i as int) == held.take(i as int));
                    assert(self.has_store_items@.skip(i as int) == held.skip(i + 1));
                    assert(held.skip(i + 1) == before.skip(read + 1));
                }
            } else {
                proof {
                    assert(held.take(i + 1) == held.take(i as int).push(held[i as int]));
                    assert(held.skip(i + 1) == before.skip(read + 1));
                }
                i += 1;
            }
            proof {
                read = read + 1;
            }
        }
        proof {
            assert(self.has_store_items@.take(i as int) == self.has_store_items@);
            assert(before.take(read) == before);
        }
    }

    /// Attaches the ownership details that have come for the item `id` to
    /// the first ownership filter that refers to it, which then loads no
    /// longer. Without such a filter nothing changes. Tells whether there
    /// was one.
    pub fn attach_details(&mut self, id: StoreItemId, details: StoreItemUserDetails) -> (found: bool)
        ensures
            found == (first_for(old(self).has_store_items@, id) < old(self).has_store_items@.len()),
            found ==> final(self).has_store_items@ == old(self).has_store_items@.update(
                first_for(old(self).has_store_items@, id),
                loaded_with(
                    old(self).has_store_items@[first_for(old(self).has_store_items@, id)],
                    details,
                ),
            ),
            !found ==> final(self).has_store_items@ == old(self).has_store_items@,
            final(self).regions_and_countries == old(self).regions_and_countries,
            final(self).include_who_has_app_in_wishlist == old(self).include_who_has_app_in_wishlist,
            final(self).exclude_who_won_before == old(self).exclude_who_won_before,
            final(self).account_age == old(self).account_age,
            final(self).exclude_unknown_age == old(self).exclude_unknown_age,
    {
        let mut i: usize = 0;
        while i < self.has_store_items.len()
            invariant
                i <= self.has_store_items.len(),
                *self == *old(self),
                forall|k: int| 0 <= k < i ==> !refers_to(#[trigger] self.has_store_items@[k], id),
            decreases self.has_store_items.len() - i,
        {
            let refers = match &self.has_store_items[i].app {
                Some(app) => app.id.0 == id.0,
                None => false,
            };
            if refers {
                proof {
                    lemma_first_for(self.has_store_items@, id, i as int);
                }
                let filter = &mut self.has_store_items[i];
                filter.is_loading = false;
                match &mut filter.app {
                    Some(app) => {
                        app.user_details = Some(details);
                    },
                    None => {},
                }
                proof {
                    assert(self.has_store_items@ =~= old(self).has_store_items@.update(
                        i as int,
                        loaded_with(old(self).has_store_items@[i as int], details),
                    ));
                }
                return true;
            }
            i += 1;
        }
        proof {
            lemma_first_for(self.has_store_items@, id, i as int);
        }
        false
    }

    /// Switches off the ownership, wishlist, earlier-winners and region
    /// passes, and offers the country codes of `friends` for selection. The
    /// account-age settings stay.
    pub fn reset(&mut self, friends: &Friends)
        ensures
            final(self).has_store_items@.len() == 0,
            !final(self).include_who_has_app_in_wishlist,
            !final(self).exclude_who_won_before,
            final(self).regions_and_countries.is_blank(),
            final(self).regions_and_countries.available_countries@ == friends.regions@,
            final(self).account_age == old(self).account_age,
            final(self).exclude_unknown_age == old(self).exclude_unknown_age,
    {
        self.has_store_items = Vec::new();
        self.include_who_has_app_in_wishlist = false;
        self.exclude_who_won_before = false;
        self.reset_regions_and_countries(friends);
    }

    /// Switches off every region selector, and offers the country codes of
    /// `friends` for selection. Everything else stays.
    pub fn reset_regions_and_countries(&mut self, friends: &Friends)
        ensures
            final(self).regions_and_countries.is_blank(),
            final(self).regions_and_countries.available_countries@ == friends.regions@,
            final(self).has_store_items == old(self).has_store_items,
            final(self).include_who_has_app_in_wishlist == old(self).include_who_has_app_in_wishlist,
            final(self).exclude_who_won_before == old(self).exclude_who_won_before,
            final(self).account_age == old(self).account_age,
            final(self).exclude_unknown_age == old(self).exclude_unknown_age,
    {
        self.regions_and_countries = RegionsAndCountriesFilter {
            available_countries: copy_codes(&friends.regions),
            include_countries: Vec::new(),
            exclude_countries: Vec::new(),
            unknown: RegionFilter::Available,
            cis: RegionFilter::Available,
            eu: RegionFilter::Available,
        };
    }
}

impl Default for Filters {
    fn default() -> (filters: Self)
        ensures
            filters.is_blank(),
            filters.regions_and_countries.available_countries@.len() == 0,
    {
        Filters {
            account_age: 0,
            exclude_unknown_age: false,
            regions_and_countries: RegionsAndCountriesFilter::default(),
            has_store_items: Vec::new(),
            include_who_has_app_in_wishlist: false,
            exclude_who_won_before: false,
        }
    }
}

} // verus!
