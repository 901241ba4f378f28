use crate::steam::user::SteamId;
use vstd::prelude::*;

verus! {

/// One entry of a user's relationship list.
#[derive(Debug, Clone, Copy, PartialEq, Eq, Structural)]
pub struct Friend {
    pub id: SteamId,
    pub relationship: Relationship,
}

#[derive(Debug, Clone, Copy, PartialEq, Eq, Structural)]
pub enum Relationship {
    Friend,
    Ignored,
}

/// Which relationships a listing request asks for.
#[derive(Debug, Clone, Copy, PartialEq, Eq, Structural)]
pub enum RelationshipFilter {
    All,
    Friend,
    Ignored,
}

impl RelationshipFilter {
    /// The word that stands for this filter in a request.
    pub open spec fn word(self) -> Seq<char> {
        match self {
            RelationshipFilter::All => "all"@,
            RelationshipFilter::Friend => "friend"@,
            RelationshipFilter::Ignored => "ignored"@,
        }
    }

    /// The request parameter for this filter.
    pub fn as_param(&self) -> (param: &'static str)
        ensures
            param@ == self.word(),
    {
        match self {
            RelationshipFilter::All => "all",
            RelationshipFilter::Friend => "friend",
            RelationshipFilter::Ignored => "ignored",
        }
    }

    /// Whether a listing under this filter holds entries of `relationship`.
    pub open spec fn admits(self, relationship: Relationship) -> bool {
        match self {
            RelationshipFilter::All => true,
            RelationshipFilter::Friend => relationship == Relationship::Friend,
            RelationshipFilter::Ignored => relationship == Relationship::Ignored,
        }
    }
}

} // verus!
