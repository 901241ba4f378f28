use crate::giveaway::retain::{
    keep_marked, lemma_filter_idempotent, lemma_filter_keeps_all, lemma_marked_is_filter,
};
use crate::steam::SteamUser;
use vstd::prelude::*;
use vstd::string::*;

verus! {

/// The two letters of a country code of the first region group.
pub open spec fn cis_pair(a: char, b: char) -> bool {
    ||| (a == 'A' && b == 'M')
    ||| (a == 'A' && b == 'Z')
    ||| (a == 'B' && b == 'Y')
    ||| (a == 'K' && b == 'Z')
    ||| (a == 'K' && b == 'G')
    ||| (a == 'M' && b == 'D')
    ||| (a == 'R' && b == 'U')
    ||| (a == 'T' && b == 'J')
    ||| (a == 'U' && b == 'A')
    ||| (a == 'U' && b == 'Z')
    ||| (a == 'T' && b == 'M')
    ||| (a == 'G' && b == 'E')
}

/// The two letters of a country code of the second region group.
pub open spec fn eu_pair(a: char, b: char) -> bool {
    ||| (a == 'A' && b == 'T')
    ||| (a == 'B' && b == 'E')
    ||| (a == 'B' && b == 'G')
    ||| (a == 'H' && b == 'R')
    ||| (a == 'C' && b == 'Y')
    ||| (a == 'C' && b == 'Z')
    ||| (a == 'D' && b == 'K')
    ||| (a == 'E' && b == 'E')
    ||| (a == 'F' && b == 'I')
    ||| (a == 'F' && b == 'R')
    ||| (a == 'D' && b == 'E')
    ||| (a == 'G' && b == 'R')
    ||| (a == 'H' && b == 'U')
    ||| (a == 'I' && b == 'E')
    ||| (a == 'I' && b == 'T')
    ||| (a == 'L' && b == 'V')
    ||| (a == 'L' && b == 'T')
    ||| (a == 'L' && b == 'U')
    ||| (a == 'M' && b == 'T')
    ||| (a == 'N' && b == 'L')
    ||| (a == 'P' && b == 'L')
    ||| (a == 'P' && b == 'T')
    ||| (a == 'R' && b == 'O')
    ||| (a == 'S' && b == 'K')
    ||| (a == 'S' && b == 'I')
    ||| (a == 'E' && b == 'S')
    ||| (a == 'S' && b == 'E')
}

/// Whether `code` is a country code of the first region group.
pub open spec fn is_cis_code(code: Seq<char>) -> bool {
    code.len() == 2 && cis_pair(code[0], code[1])
}

/// Whether `code` is a country code of the second region group.
pub open spec fn is_eu_code(code: Seq<char>) -> bool {
    code.len() == 2 && eu_pair(code[0], code[1])
}

/// No country code belongs to both region groups.
pub proof fn lemma_groups_disjoint(code: Seq<char>)
    ensures
        !(is_cis_code(code) && is_eu_code(code)),
{
}

/// Whether some entry of `countries` is `code`.
pub open spec fn listed(countries: Seq<String>, code: Seq<char>) -> bool {
    exists|i: int| 0 <= i < countries.len() && (#[trigger] countries[i])@ == code
}

fn is_cis_pair(a: char, b: char) -> (found: bool)
    ensures
        found == cis_pair(a, b),
{
    (a == 'A' && b == 'M') || (a == 'A' && b == 'Z') || (a == 'B' && b == 'Y') || (a == 'K' && b
        == 'Z') || (a == 'K' && b == 'G') || (a == 'M' && b == 'D') || (a == 'R' && b == 'U') || (a
        == 'T' && b == 'J') || (a == 'U' && b == 'A') || (a == 'U' && b == 'Z') || (a == 'T' && b
        == 'M') || (a == 'G' && b == 'E')
}

fn is_eu_pair(a: char, b: char) -> (found: bool)
    ensures
        found == eu_pair(a, b),
{
    (a == 'A' && b == 'T') || (a == 'B' && b == 'E') || (a == 'B' && b == 'G') || (a == 'H' && b
        == 'R') || (a == 'C' && b == 'Y') || (a == 'C' && b == 'Z') || (a == 'D' && b == 'K') || (a
        == 'E' && b == 'E') || (a == 'F' && b == 'I') || (a == 'F' && b == 'R') || (a == 'D' && b
        == 'E') || (a == 'G' && b == 'R') || (a == 'H' && b == 'U') || (a == 'I' && b == 'E') || (a
        == 'I' && b == 'T') || (a == 'L' && b == 'V') || (a == 'L' && b == 'T') || (a == 'L' && b
        == 'U') || (a == 'M' && b == 'T') || (a == 'N' && b == 'L') || (a == 'P' && b == 'L') || (a
        == 'P' && b == 'T') || (a == 'R' && b == 'O') || (a == 'S' && b == 'K') || (a == 'S' && b
        == 'I') || (a == 'E' && b == 'S') || (a == 'S' && b == 'E')
}

/// Decides membership of the first region group.
pub fn in_cis(code: &str) -> (found: bool)
    ensures
        found == is_cis_code(code@),
{
    if code.unicode_len() != 2 {
        return false;
    }
    is_cis_pair(code.get_char(0), code.get_char(1))
}

/// Decides membership of the second region group.
pub fn in_eu(code: &str) -> (found: bool)
    ensures
        found == is_eu_code(code@),
{
    if code.unicode_len() != 2 {
        return false;
    }
    is_eu_pair(code.get_char(0), code.get_char(1))
}

/// Decides whether `code` is an entry of `countries`.
pub fn is_listed(countries: &Vec<String>, code: &String) -> (found: bool)
    ensures
        found == listed(countries@, code@),
{
    let mut i: usize = 0;
    while i < countries.len()
        invariant
            i <= countries.len(),
            forall|k: int| 0 <= k < i ==> (#[trigger] countries@[k])@ != code@,
        decreases countries.len() - i,
    {
        if countries[i] == *code {
            return true;
        }
        i += 1;
    }
    false
}

/// What a selector does with the members it matches.
#[derive(Debug, Clone, Copy, PartialEq, Eq, Structural)]
pub enum RegionFilter {
    Available,
    Include,
    Exclude,
}

impl Default for RegionFilter {
    fn default() -> (filter: Self)
        ensures
            filter == RegionFilter::Available,
    {
        RegionFilter::Available
    }
}

/// The selectors of the region pass: one for members of unknown country, one
/// for each region group, and two free lists of country codes.
pub struct RegionsAndCountriesFilter {
    pub available_countries: Vec<String>,
    pub include_countries: Vec<String>,
    pub exclude_countries: Vec<String>,
    pub unknown: RegionFilter,
    pub cis: RegionFilter,
    pub eu: RegionFilter,
}

impl Default for RegionsAndCountriesFilter {
    fn default() -> (filter: Self)
        ensures
            filter.is_blank(),
            filter.available_countries@.len() == 0,
    {
        RegionsAndCountriesFilter {
            available_countries: Vec::new(),
            include_countries: Vec::new(),
            exclude_countries: Vec::new(),
            unknown: RegionFilter::Available,
            cis: RegionFilter::Available,
            eu: RegionFilter::Available,
        }
    }
}

/// Whether `user` matches one of the selectors that are switched on. A member
/// without a country code matches the unknown selector and no other.
pub open spec fn selects(
    user: SteamUser,
    unknown: bool,
    cis: bool,
    eu: bool,
    countries: Seq<String>,
) -> bool {
    match user.country_code {
        None => unknown,
        Some(code) => (cis && is_cis_code(code@)) || (eu && is_eu_code(code@)) || listed(
            countries,
            code@,
        ),
    }
}

impl RegionsAndCountriesFilter {
    /// Whether at least one selector includes.
    pub open spec fn include_engaged(&self) -> bool {
        self.include_countries@.len() > 0 || self.unknown == RegionFilter::Include || self.cis
            == RegionFilter::Include || self.eu == RegionFilter::Include
    }

    /// Whether at least one selector excludes.
    pub open spec fn exclude_engaged(&self) -> bool {
        self.exclude_countries@.len() > 0 || self.unknown == RegionFilter::Exclude || self.cis
            == RegionFilter::Exclude || self.eu == RegionFilter::Exclude
    }

    /// Whether no selector is switched on.
    pub open spec fn is_blank(&self) -> bool {
        !self.include_engaged() && !self.exclude_engaged()
    }

    /// Whether an including selector matches `user`.
    pub open spec fn includes(&self, user: SteamUser) -> bool {
        selects(
            user,
            self.unknown == RegionFilter::Include,
            self.cis == RegionFilter::Include,
            self.eu == RegionFilter::Include,
            self.include_countries@,
        )
    }

    /// Whether an excluding selector matches `user`.
    pub open spec fn excludes(&self, user: SteamUser) -> bool {
        selects(
            user,
            self.unknown == RegionFilter::Exclude,
            self.cis == RegionFilter::Exclude,
            self.eu == RegionFilter::Exclude,
            self.exclude_countries@,
        )
    }

    /// Whether `user` stays: matched by an including selector if there is
    /// one, and matched by no excluding selector.
    pub open spec fn admits(&self, user: SteamUser) -> bool {
        (self.include_engaged() ==> self.includes(user)) && !self.excludes(user)
    }
}

/// The rule of the region pass, as a predicate on members.
pub open spec fn region_rule(filters: RegionsAndCountriesFilter) -> spec_fn(SteamUser) -> bool {
    |user: SteamUser| filters.admits(user)
}

/// Running the region pass on its own result, with the same selectors,
/// changes nothing.
pub proof fn lemma_region_pass_idempotent(
    roster: Seq<SteamUser>,
    filters: RegionsAndCountriesFilter,
)
    ensures
        roster.filter(region_rule(filters)).filter(region_rule(filters)) == roster.filter(
            region_rule(filters),
        ),
{
    lemma_filter_idempotent(roster, region_rule(filters));
}

/// With no selector switched on, the region pass removes nobody.
pub proof fn lemma_blank_region_keeps_roster(
    roster: Seq<SteamUser>,
    filters: RegionsAndCountriesFilter,
)
    requires
        filters.is_blank(),
    ensures
        roster.filter(region_rule(filters)) == roster,
{
    lemma_filter_keeps_all(roster, region_rule(filters));
}

/// Decides `selects` for one member.
pub fn is_selected(
    user: &SteamUser,
    unknown: bool,
    cis: bool,
    eu: bool,
    countries: &Vec<String>,
) -> (selected: bool)
    ensures
        selected == selects(*user, unknown, cis, eu, countries@),
{
    match &user.country_code {
        None => unknown,
        Some(code) => {
            if cis && in_cis(code.as_str()) {
                return true;
            }
            if eu && in_eu(code.as_str()) {
                return true;
            }
            is_listed(countries, code)
        },
    }
}

/// The region pass: first what the including selectors keep, then without
/// what the excluding selectors match.
pub fn apply_region_filters(friends: &mut Vec<SteamUser>, filters: &RegionsAndCountriesFilter)
    ensures
        final(friends)@ == old(friends)@.filter(region_rule(*filters)),
{
    let include_unknown = matches!(filters.unknown, RegionFilter::Include);
    let include_cis = matches!(filters.cis, RegionFilter::Include);
    let include_eu = matches!(filters.eu, RegionFilter::Include);
    let include_any = filters.include_countries.len() > 0 || include_unknown || include_cis
        || include_eu;

    let exclude_unknown = matches!(filters.unknown, RegionFilter::Exclude);
    let exclude_cis = matches!(filters.cis, RegionFilter::Exclude);
    let exclude_eu = matches!(filters.eu, RegionFilter::Exclude);
    let exclude_any = filters.exclude_countries.len() > 0 || exclude_unknown || exclude_cis
        || exclude_eu;

    if !include_any && !exclude_any {
        proof {
            lemma_filter_keeps_all(friends@, region_rule(*filters));
        }
        return ;
    }
    let mut marks: Vec<bool> = Vec::new();
    let mut i: usize = 0;
    while i < friends.len()
        invariant
            i <= friends.len(),
            marks.len() == i,
            include_any == filters.include_engaged(),
            include_unknown == (filters.unknown == RegionFilter::Include),
            include_cis == (filters.cis == RegionFilter::Include),
            include_eu == (filters.eu == RegionFilter::Include),
            exclude_unknown == (filters.unknown == RegionFilter::Exclude),
            exclude_cis == (filters.cis == RegionFilter::Exclude),
            exclude_eu == (filters.eu == RegionFilter::Exclude),
            forall|k: int| 0 <= k < i ==> marks@[k] == filters.admits(#[trigger] friends@[k]),
        decreases friends.len() - i,
    {
        let user = &friends[i];
        let included = !include_any || is_selected(
            user,
            include_unknown,
            include_cis,
            include_eu,
            &filters.include_countries,
        );
        let stays = included && !is_selected(
            user,
            exclude_unknown,
            exclude_cis,
            exclude_eu,
            &filters.exclude_countries,
        );
        marks.push(stays);
        i += 1;
    }
    keep_marked(friends, &marks);
    proof {
        lemma_marked_is_filter(old(friends)@, marks@, region_rule(*filters));
    }
}

} // verus!
