use base64::Engine;
use steam_giveaway_tool::steam::client::{parse_payload, payload_segment, read_claims};
use steam_giveaway_tool::steam::request::{
    join_item_ids, join_user_ids, login_cookie, search_country,
};
use steam_giveaway_tool::steam::{
    parse_access_token, AccessToken, SteamId, StoreItemId, TokenError, TokenInfo, WireValue,
};

fn token_with_payload(json: &str) -> String {
    let payload = base64::prelude::BASE64_URL_SAFE_NO_PAD.encode(json);
    format!("eyJhbGciOiJFZERTQSJ9.{payload}.c2lnbmF0dXJl")
}

#[test]
fn token_round_trip() {
    let token = token_with_payload("{\"sub\": \"76500000000000000\", \"exp\": 4102444800}");
    let info = parse_access_token(&token);
    assert_eq!(
        info,
        Ok(TokenInfo { user_id: SteamId(76500000000000000), expires_on: 4102444800 })
    );

    let access = AccessToken::new(&token);
    assert_eq!(access.info, info);
    assert_eq!(access.token, token);
    assert!(!access.is_expired_at(4102444799));
    assert!(access.is_expired_at(4102444800));
    assert!(access.is_expired_at(4102444801));
    assert!(!access.is_expired());
}

#[test]
fn token_subject_may_be_a_number() {
    let token = token_with_payload("{\"exp\":1700000000,\"sub\":76561198000000000,\"iss\":\"x\"}");
    assert_eq!(
        parse_access_token(&token),
        Ok(TokenInfo { user_id: SteamId(76561198000000000), expires_on: 1700000000 })
    );
}

#[test]
fn token_expiry_may_lie_before_the_epoch() {
    let token = token_with_payload("{\"sub\":1,\"exp\":-5}");
    assert_eq!(parse_access_token(&token), Ok(TokenInfo { user_id: SteamId(1), expires_on: -5 }));
}

#[test]
fn token_is_trimmed_before_it_is_read() {
    let token = token_with_payload("{\"sub\":\"42\",\"exp\":10}");
    let access = AccessToken::new(&format!("  \t{token}\n "));
    assert_eq!(access.token, token);
    assert_eq!(access.info, Ok(TokenInfo { user_id: SteamId(42), expires_on: 10 }));
    assert_eq!(
        parse_access_token(&format!(" {token}")),
        Err(TokenError::ParseFailed)
    );
}

#[test]
fn empty_token_is_reported_as_empty() {
    assert_eq!(parse_access_token(""), Err(TokenError::EmptyString));
    let access = AccessToken::new("   \n\t ");
    assert_eq!(access.info, Err(TokenError::EmptyString));
    assert_eq!(access.token, "");
    let access = AccessToken::default();
    assert_eq!(access.info, Err(TokenError::EmptyString));
    assert_eq!(access.token, "");
    assert_eq!(TokenError::default(), TokenError::EmptyString);
}

#[test]
fn token_needs_three_segments() {
    let payload = base64::prelude::BASE64_URL_SAFE_NO_PAD.encode("{\"sub\":1,\"exp\":2}");
    for token in [
        payload.clone(),
        format!("a.{payload}"),
        format!("a.{payload}."),
        format!(".{payload}.c"),
        format!("a..c"),
        format!("a.{payload}.c.d"),
        format!("a.{payload}.c d"),
        format!("a b.{payload}.c"),
        format!("a.{payload}=.c"),
        format!("a.{payload}.c\n"),
        format!("\u{e9}.{payload}.c"),
        ".".to_string(),
        "..".to_string(),
    ] {
        assert_eq!(parse_access_token(&token), Err(TokenError::ParseFailed), "{token}");
    }
    assert!(parse_access_token(&format!("a.{payload}.c")).is_ok());
    assert!(parse_access_token(&format!("A-_9.{payload}.-")).is_ok());
}

#[test]
fn payload_segment_is_the_middle_one() {
    assert_eq!(payload_segment("head.body.tail"), Some("body"));
    assert_eq!(payload_segment("h.b.t"), Some("b"));
    assert_eq!(payload_segment("h_-.0Az.t"), Some("0Az"));
    assert_eq!(payload_segment("head.body"), None);
    assert_eq!(payload_segment("head.bo+dy.tail"), None);
    assert_eq!(payload_segment("head.body.tail."), None);
    assert_eq!(payload_segment(""), None);
}

#[test]
fn token_payload_must_be_base64() {
    assert_eq!(parse_access_token("a.b.c"), Err(TokenError::ParseFailed));
    assert_eq!(parse_access_token("a.bbbbb.c"), Err(TokenError::ParseFailed));
}

#[test]
fn token_payload_must_hold_subject_and_expiry() {
    for json in [
        "{\"sub\":\"1\"}",
        "{\"exp\":5}",
        "{}",
        "[\"1\",5]",
        "\"text\"",
        "not json",
        "{\"sub\":\"1\",\"exp\":\"5\"}",
        "{\"sub\":\"1\",\"exp\":5.5}",
        "{\"sub\":\"1\",\"exp\":18446744073709551615}",
        "{\"sub\":-1,\"exp\":5}",
        "{\"sub\":1.0,\"exp\":5}",
        "{\"sub\":\"one\",\"exp\":5}",
        "{\"sub\":\"\",\"exp\":5}",
        "{\"sub\":\"18446744073709551616\",\"exp\":5}",
        "{\"sub\":null,\"exp\":5}",
        "{\"sub\":true,\"exp\":5}",
        "{\"sub\":[1],\"exp\":5}",
        "{\"sub\":1,\"exp\":5} trailing",
    ] {
        assert_eq!(parse_payload(json.as_bytes()), Err(TokenError::ParseFailed), "{json}");
        assert_eq!(
            parse_access_token(&token_with_payload(json)),
            Err(TokenError::ParseFailed),
            "{json}"
        );
    }
    assert_eq!(
        parse_payload("{\"sub\":\"18446744073709551615\",\"exp\":9223372036854775807}".as_bytes()),
        Ok(TokenInfo { user_id: SteamId(u64::MAX), expires_on: i64::MAX })
    );
}

#[test]
fn claims_are_put_together_from_two_members() {
    assert_eq!(
        read_claims(&WireValue::Text("+7".to_string()), &WireValue::Unsigned(9)),
        Ok(TokenInfo { user_id: SteamId(7), expires_on: 9 })
    );
    assert_eq!(
        read_claims(&WireValue::Unsigned(7), &WireValue::Negative(-9)),
        Ok(TokenInfo { user_id: SteamId(7), expires_on: -9 })
    );
    assert_eq!(
        read_claims(&WireValue::Unsigned(7), &WireValue::Unsigned(1 << 63)),
        Err(TokenError::ParseFailed)
    );
    assert_eq!(
        read_claims(&WireValue::Absent, &WireValue::Unsigned(9)),
        Err(TokenError::ParseFailed)
    );
    assert_eq!(
        read_claims(&WireValue::Unsigned(7), &WireValue::Text("9".to_string())),
        Err(TokenError::ParseFailed)
    );
}

#[test]
fn expiry_is_noticed_once_the_clock_reaches_it() {
    let token = token_with_payload("{\"sub\":\"42\",\"exp\":1000}");
    let mut access = AccessToken::new(&token);
    assert!(!access.note_expiry_at(999));
    assert_eq!(access.info, Ok(TokenInfo { user_id: SteamId(42), expires_on: 1000 }));
    assert!(access.is_expired());
    assert!(access.note_expiry_at(1000));
    assert_eq!(access.info, Err(TokenError::Expired));
    assert_eq!(access.token, token);
    assert!(!access.is_expired_at(2000));
    assert!(!access.note_expiry_at(2000));
    assert!(!access.is_expired());
}

#[test]
fn token_that_did_not_parse_never_expires() {
    let access = AccessToken::new("garbage");
    assert_eq!(access.info, Err(TokenError::ParseFailed));
    assert!(!access.is_expired_at(i64::MAX));
    assert!(!access.is_expired());
}

#[test]
fn request_parameters_are_written_out() {
    assert_eq!(join_user_ids(&[]), "");
    assert_eq!(join_user_ids(&[SteamId(76561198000000000)]), "76561198000000000");
    assert_eq!(join_user_ids(&[SteamId(1), SteamId(0), SteamId(u64::MAX)]), "1,0,18446744073709551615");
    assert_eq!(join_item_ids(&[StoreItemId(730), StoreItemId(570)]), "730,570");
    assert_eq!(join_item_ids(&[]), "");
    assert_eq!(login_cookie(SteamId(42), "a.b.c"), "steamLoginSecure=42%7C%7Ca.b.c");
    assert_eq!(search_country(None), "us");
    assert_eq!(search_country(Some("de")), "de");
}
