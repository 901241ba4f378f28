//! Data exchanged with the platform: identifiers, profiles, store items and
//! the access token that gates every request.

pub mod client;
pub mod decimal;
pub mod get_friend_list;
pub mod request;
pub mod store_item;
pub mod store_item_user_details;
pub mod user;
pub mod wire;

pub use client::{parse_access_token, AccessToken, TokenError, TokenInfo};
pub use get_friend_list::{Friend, Relationship, RelationshipFilter};
pub use store_item::{Price, SteamStoreItem, StoreItemId, StoreItemKind};
pub use store_item_user_details::{FriendOwn, FriendWant, StoreItemUserDetails};
pub use user::{SteamId, SteamUser};
pub use wire::{deserialize_u32, deserialize_u64, WireError, WireValue};
