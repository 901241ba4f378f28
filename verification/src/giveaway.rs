//! The roster pipeline: narrowing passes, their composition, and the drawing
//! of winners from what they leave.

pub mod acquisition;
pub mod filters;
pub mod friends;
pub mod preferences;
pub mod regions;
pub mod retain;
pub mod winners;

pub use acquisition::Acquisition;
pub use filters::{
    apply_account_age_filter, apply_has_app_filters, apply_region_filters,
    exclude_who_won_before, include_who_has_store_item_in_wishlist, Filters, HasAppFilter,
    RegionFilter, RegionsAndCountriesFilter,
};
pub use friends::{Friends, FriendsAndTheirRegions, Progress};
pub use preferences::Preferences;
pub use winners::Winners;
