//! The narrowing passes. Each one only removes members and keeps the order of
//! those that stay.

pub mod account_age;
pub mod exclude_won_before;
pub mod has_app;
pub mod include_app_in_wishlist;
pub mod region;
pub mod settings;

pub use account_age::apply_account_age_filter;
pub use exclude_won_before::exclude_who_won_before;
pub use has_app::{apply_has_app_filters, HasAppFilter};
pub use include_app_in_wishlist::include_who_has_store_item_in_wishlist;
pub use region::{apply_region_filters, RegionFilter, RegionsAndCountriesFilter};
pub use settings::Filters;
