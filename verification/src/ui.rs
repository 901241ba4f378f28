//! The state behind the widgets, without their drawing.

pub mod search_select;

pub use search_select::{SearchSelect, SearchSelectResponse};
