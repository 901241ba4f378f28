//! Friend-roster filtering, access-token validation and winner drawing for
//! giveaways among a user's friends on a gaming platform.

pub mod clock;
pub mod giveaway;
pub mod steam;
pub mod ui;
pub mod utils;
