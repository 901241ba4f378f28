use vstd::prelude::*;

verus! {

/// What the roster shows beside the names.
#[derive(Debug, Clone, Copy, PartialEq, Eq, Structural)]
pub struct Preferences {
    pub avatars: bool,
    pub flags_icons: bool,
    pub store_items_capsules: bool,
}

impl Default for Preferences {
    fn default() -> (preferences: Self)
        ensures
            preferences.avatars,
            preferences.flags_icons,
            preferences.store_items_capsules,
    {
        Preferences { avatars: true, flags_icons: true, store_items_capsules: true }
    }
}

} // verus!
