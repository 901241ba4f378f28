//! The parameters that requests to the platform carry.

use crate::steam::store_item::StoreItemId;
use crate::steam::user::SteamId;
use crate::utils::{decimal_string, decimal_text};
use vstd::prelude::*;
use vstd::string::*;

verus! {

/// The parts with a comma between each two.
pub open spec fn comma_joined(parts: Seq<Seq<char>>) -> Seq<char>
    decreases parts.len(),
{
    if parts.len() == 0 {
        Seq::empty()
    } else if parts.len() == 1 {
        parts[0]
    } else {
        comma_joined(parts.drop_last()) + seq![','] + parts.last()
    }
}

/// The user identifiers, each written in decimal.
pub open spec fn user_id_texts(ids: Seq<SteamId>) -> Seq<Seq<char>> {
    ids.map_values(|id: SteamId| decimal_text(id.0 as nat))
}

/// The item identifiers, each written in decimal.
pub open spec fn item_id_texts(ids: Seq<StoreItemId>) -> Seq<Seq<char>> {
    ids.map_values(|id: StoreItemId| decimal_text(id.0 as nat))
}

/// The value of the parameter that names the users of a request.
pub fn join_user_ids(ids: &[SteamId]) -> (joined: String)
    ensures
        joined@ == comma_joined(user_id_texts(ids@)),
{
    let mut joined = String::new();
    let mut i: usize = 0;
    proof {
        reveal_strlit(",");
        assert(user_id_texts(ids@).take(0) =~= Seq::<Seq<char>>::empty());
    }
    while i < ids.len()
        invariant
            i <= ids.len(),
            ","@ == seq![','],
            joined@ == comma_joined(user_id_texts(ids@).take(i as int)),
        decreases ids.len() - i,
    {
        let ghost texts = user_id_texts(ids@);
        if i > 0 {
            joined.append(",");
        }
        let text = decimal_string(ids[i].0);
        joined.append(text.as_str());
        proof {
            assert(texts.take(i + 1).drop_last() == texts.take(i as int));
            assert(texts.take(i + 1).last() == text@);
            assert(joined@ =~= comma_joined(texts.take(i + 1)));
        }
        i += 1;
    }
    proof {
        assert(user_id_texts(ids@).take(i as int) == user_id_texts(ids@));
    }
    joined
}

/// The value of the parameter that names the items of a request.
pub fn join_item_ids(ids: &[StoreItemId]) -> (joined: String)
    ensures
        joined@ == comma_joined(item_id_texts(ids@)),
{
    let mut joined = String::new();
    let mut i: usize = 0;
    proof {
        reveal_strlit(",");
        assert(item_id_texts(ids@).take(0) =~= Seq::<Seq<char>>::empty());
    }
    while i < ids.len()
        invariant
            i <= ids.len(),
            ","@ == seq![','],
            joined@ == comma_joined(item_id_texts(ids@).take(i as int)),
        decreases ids.len() - i,
    {
        let ghost texts = item_id_texts(ids@);
        if i > 0 {
            joined.append(",");
        }
        let text = decimal_string(ids[i].0 as u64);
        joined.append(text.as_str());
        proof {
            assert(texts.take(i + 1).drop_last() == texts.take(i as int));
            assert(texts.take(i + 1).last() == text@);
            assert(joined@ =~= comma_joined(texts.take(i + 1)));
        }
        i += 1;
    }
    proof {
        assert(item_id_texts(ids@).take(i as int) == item_id_texts(ids@));
    }
    joined
}

/// The cookie that logs a user in: its name, the user's identifier, two
/// encoded bars, and the token.
pub open spec fn login_cookie_text(user_id: SteamId, token: Seq<char>) -> Seq<char> {
    "steamLoginSecure="@ + decimal_text(user_id.0 as nat) + "%7C%7C"@ + token
}

/// Writes the cookie that logs `user_id` in with `token`.
pub fn login_cookie(user_id: SteamId, token: &str) -> (cookie: String)
    ensures
        cookie@ == login_cookie_text(user_id, token@),
{
    let mut cookie = "steamLoginSecure=".to_owned();
    let id = decimal_string(user_id.0);
    cookie.append(id.as_str());
    cookie.append("%7C%7C");
    cookie.append(token);
    cookie
}

/// The country that a store search is made for: the one given, or the
/// United States.
pub fn search_country<'a>(country_code: Option<&'a str>) -> (country: &'a str)
    ensures
        country@ == match country_code {
            Some(code) => code@,
            None => "us"@,
        },
{
    match country_code {
        Some(code) => code,
        None => "us",
    }
}

} // verus!
