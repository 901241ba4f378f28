use crate::steam::store_item_user_details::StoreItemUserDetails;
use vstd::prelude::*;

verus! {

/// A price in the minor units of its currency.
#[derive(Debug)]
pub struct Price {
    /// ISO 4217 code.
    pub currency: String,
    pub value_in_cents: u32,
}

/// The identifier of an item in the store.
#[derive(Debug, Default, Hash, Clone, Copy, PartialEq, Eq, Structural)]
pub struct StoreItemId(pub u32);

impl View for StoreItemId {
    type V = u32;

    open spec fn view(&self) -> u32 {
        self.0
    }
}

#[derive(Debug, Clone, Copy, PartialEq, Eq, Structural)]
pub enum StoreItemKind {
    App,
    Sub,
    Unknown,
}

impl Clone for Price {
    fn clone(&self) -> (copy: Self)
        ensures
            copy == *self,
    {
        Price { currency: self.currency.clone(), value_in_cents: self.value_in_cents }
    }
}

/// An item of the store, with the ownership details of the viewer's friends
/// once they have been loaded.
#[derive(Debug)]
pub struct SteamStoreItem {
    pub kind: StoreItemKind,
    pub id: StoreItemId,
    pub name: String,
    pub capsule_url: String,
    pub price: Option<Price>,
    pub user_details: Option<StoreItemUserDetails>,
}

/// Whether two optional details hold the same entries.
pub open spec fn same_details(
    one: Option<StoreItemUserDetails>,
    other: Option<StoreItemUserDetails>,
) -> bool {
    match (one, other) {
        (Some(a), Some(b)) => a.friends_own@ == b.friends_own@ && a.friends_want@
            == b.friends_want@,
        (None, None) => true,
        _ => false,
    }
}

impl SteamStoreItem {
    /// Whether `other` says of the item what `self` says.
    pub open spec fn same_content(&self, other: &SteamStoreItem) -> bool {
        &&& self.kind == other.kind
        &&& self.id == other.id
        &&& self.name == other.name
        &&& self.capsule_url == other.capsule_url
        &&& self.price == other.price
        &&& same_details(self.user_details, other.user_details)
    }

    /// The key by which two items are the same item, whatever their other
    /// fields hold.
    pub open spec fn key(&self) -> u32 {
        self.id.0
    }

    /// Whether `self` and `other` are the same item of the store.
    pub fn same_item(&self, other: &SteamStoreItem) -> (same: bool)
        ensures
            same == (self.key() == other.key()),
    {
        self.id.0 == other.id.0
    }
}

impl Clone for SteamStoreItem {
    fn clone(&self) -> (copy: Self)
        ensures
            copy.same_content(self),
    {
        let price = match &self.price {
            Some(price) => Some(price.clone()),
            None => None,
        };
        let user_details = match &self.user_details {
            Some(details) => Some(details.clone()),
            None => None,
        };
        SteamStoreItem {
            kind: self.kind,
            id: self.id,
            name: self.name.clone(),
            capsule_url: self.capsule_url.clone(),
            price,
            user_details,
        }
    }
}

impl PartialEq for SteamStoreItem {
    fn eq(&self, other: &Self) -> (same: bool) {
        self.same_item(other)
    }
}

impl vstd::std_specs::cmp::PartialEqSpecImpl for SteamStoreItem {
    open spec fn obeys_eq_spec() -> bool {
        true
    }

    open spec fn eq_spec(&self, other: &Self) -> bool {
        self.key() == other.key()
    }
}

impl From<StoreItemId> for u32 {
    fn from(val: StoreItemId) -> (number: u32) {
        val.0
    }
}

impl vstd::std_specs::convert::FromSpecImpl<StoreItemId> for u32 {
    open spec fn obeys_from_spec() -> bool {
        true
    }

    open spec fn from_spec(val: StoreItemId) -> u32 {
        val.0
    }
}

impl From<u32> for StoreItemId {
    fn from(val: u32) -> (id: Self) {
        StoreItemId(val)
    }
}

impl vstd::std_specs::convert::FromSpecImpl<u32> for StoreItemId {
    open spec fn obeys_from_spec() -> bool {
        true
    }

    open spec fn from_spec(val: u32) -> Self {
        StoreItemId(val)
    }
}

} // verus!
