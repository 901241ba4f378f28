use vstd::prelude::*;

verus! {

/// A platform-wide user identifier.
#[derive(Debug, Default, Hash, Clone, Copy, PartialEq, Eq, Structural)]
pub struct SteamId(pub u64);

impl View for SteamId {
    type V = u64;

    open spec fn view(&self) -> u64 {
        self.0
    }
}

impl From<SteamId> for u64 {
    fn from(val: SteamId) -> (number: u64) {
        val.0
    }
}

impl vstd::std_specs::convert::FromSpecImpl<SteamId> for u64 {
    open spec fn obeys_from_spec() -> bool {
        true
    }

    open spec fn from_spec(val: SteamId) -> u64 {
        val.0
    }
}

/// A friend's public profile.
///
/// `country_code` is absent for private profiles. `created_at` is the
/// account's creation instant in seconds since the Unix epoch, and is absent
/// whenever the platform did not report it.
#[derive(Debug)]
pub struct SteamUser {
    pub id: SteamId,
    pub name: String,
    pub avatar_url: String,
    pub country_code: Option<String>,
    pub created_at: Option<i64>,
}

impl Clone for SteamUser {
    fn clone(&self) -> (copy: Self)
        ensures
            copy == *self,
    {
        let country_code = match &self.country_code {
            Some(code) => Some(code.clone()),
            None => None,
        };
        SteamUser {
            id: self.id,
            name: self.name.clone(),
            avatar_url: self.avatar_url.clone(),
            country_code,
            created_at: self.created_at,
        }
    }
}

} // verus!
