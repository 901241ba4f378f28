//! The access token: three segments joined by dots, of which the second
//! holds, in URL-safe base64 without padding, a JSON object that names the
//! subject and the instant of expiry.

use crate::clock::unix_now;
use crate::steam::user::SteamId;
use crate::steam::wire::{
    deserialize_timestamp, deserialize_u64, json_member, read_member, wire_timestamp,
    wire_unsigned, WireModel, WireValue,
};
use vstd::prelude::*;
use vstd::string::*;
use vstd::utf8::is_ascii_chars;

verus! {

/// What a token says: whose it is, and until when it is good, in seconds
/// since the Unix epoch.
#[derive(Debug, Clone, Copy, PartialEq, Eq, Structural)]
pub struct TokenInfo {
    pub user_id: SteamId,
    pub expires_on: i64,
}

#[derive(Debug, Clone, Copy, PartialEq, Eq, Structural)]
pub enum TokenError {
    /// Nothing was entered.
    EmptyString,
    /// What was entered is not a token.
    ParseFailed,
    /// The token was good once.
    Expired,
}

impl Default for TokenError {
    fn default() -> (error: Self)
        ensures
            error == TokenError::EmptyString,
    {
        TokenError::EmptyString
    }
}

/// A token as entered, without the space around it, and what it says.
pub struct AccessToken {
    pub info: Result<TokenInfo, TokenError>,
    pub token: String,
}

/// Whether `c` may stand in a segment of a token.
pub open spec fn is_token_char(c: char) -> bool {
    ('A' <= c <= 'Z') || ('a' <= c <= 'z') || ('0' <= c <= '9') || c == '_' || c == '-'
}

/// Where the run of token characters that starts at `from` ends.
pub open spec fn segment_end(text: Seq<char>, from: int) -> int
    decreases text.len() - from,
{
    if 0 <= from < text.len() && is_token_char(text[from]) {
        segment_end(text, from + 1)
    } else {
        from
    }
}

/// Where the second segment of `token` starts and ends, if `token` is made
/// of three segments, each of one token character or more, with one dot
/// between each two and nothing else.
pub open spec fn payload_span(token: Seq<char>) -> Option<(int, int)> {
    let first_dot = segment_end(token, 0);
    let second_dot = segment_end(token, first_dot + 1);
    let end = segment_end(token, second_dot + 1);
    if 0 < first_dot < token.len() && token[first_dot] == '.' && first_dot + 1 < second_dot
        < token.len() && token[second_dot] == '.' && second_dot + 1 < end && end == token.len() {
        Some((first_dot + 1, second_dot))
    } else {
        None
    }
}

/// The second segment of a three-segment token.
pub open spec fn payload_of(token: Seq<char>) -> Option<Seq<char>> {
    match payload_span(token) {
        Some((from, to)) => Some(token.subrange(from, to)),
        None => None,
    }
}

/// A run of token characters holds nothing else, and ends at a character
/// that is none or at the end of the text.
pub proof fn lemma_segment_end(text: Seq<char>, from: int)
    requires
        0 <= from <= text.len(),
    ensures
        from <= segment_end(text, from) <= text.len(),
        forall|k: int| from <= k < segment_end(text, from) ==> is_token_char(#[trigger] text[k]),
        segment_end(text, from) < text.len() ==> !is_token_char(text[segment_end(text, from)]),
    decreases text.len() - from,
{
    if from < text.len() && is_token_char(text[from]) {
        lemma_segment_end(text, from + 1);
    }
}

/// A three-segment token holds token characters and dots only.
pub proof fn lemma_token_is_ascii(token: Seq<char>)
    requires
        payload_span(token) is Some,
    ensures
        is_ascii_chars(token),
{
    let first_dot = segment_end(token, 0);
    let second_dot = segment_end(token, first_dot + 1);
    lemma_segment_end(token, 0);
    lemma_segment_end(token, first_dot + 1);
    lemma_segment_end(token, second_dot + 1);
    assert forall|k: int| 0 <= k < token.len() implies '\0' <= #[trigger] token[k] <= '\u{7f}' by {
        if k != first_dot && k != second_dot {
            assert(is_token_char(token[k]));
        }
    }
}

/// Whether `text` is one token character or more, and nothing else.
pub open spec fn is_segment(text: Seq<char>) -> bool {
    text.len() > 0 && forall|i: int| 0 <= i < text.len() ==> is_token_char(#[trigger] text[i])
}

/// The token made of three segments.
pub open spec fn joined(header: Seq<char>, payload: Seq<char>, signature: Seq<char>) -> Seq<char> {
    header + seq!['.'] + payload + seq!['.'] + signature
}

/// A run of token characters that is followed by a character that is none,
/// or by the end of the text, ends there.
pub proof fn lemma_segment_ends_at(text: Seq<char>, from: int, end: int)
    requires
        0 <= from <= end <= text.len(),
        forall|k: int| from <= k < end ==> is_token_char(#[trigger] text[k]),
        end < text.len() ==> !is_token_char(text[end]),
    ensures
        segment_end(text, from) == end,
    decreases end - from,
{
    if from < end {
        lemma_segment_ends_at(text, from + 1, end);
    }
}

/// Three segments joined by dots are a token, and its payload is the second
/// of them.
pub proof fn lemma_payload_of_joined(header: Seq<char>, payload: Seq<char>, signature: Seq<char>)
    requires
        is_segment(header),
        is_segment(payload),
        is_segment(signature),
    ensures
        payload_of(joined(header, payload, signature)) == Some(payload),
{
    let token = joined(header, payload, signature);
    let first_dot = header.len() as int;
    let second_dot = first_dot + 1 + payload.len();
    assert forall|k: int| 0 <= k < first_dot implies is_token_char(#[trigger] token[k]) by {
        assert(token[k] == header[k]);
    }
    assert(token[first_dot] == '.');
    assert forall|k: int| first_dot + 1 <= k < second_dot implies is_token_char(
        #[trigger] token[k],
    ) by {
        assert(token[k] == payload[k - first_dot - 1]);
    }
    assert(token[second_dot] == '.');
    assert forall|k: int| second_dot + 1 <= k < token.len() implies is_token_char(
        #[trigger] token[k],
    ) by {
        assert(token[k] == signature[k - second_dot - 1]);
    }
    lemma_segment_ends_at(token, 0, first_dot);
    lemma_segment_ends_at(token, first_dot + 1, second_dot);
    lemma_segment_ends_at(token, second_dot + 1, token.len() as int);
    assert(token.subrange(first_dot + 1, second_dot) =~= payload);
}

/// A text with a payload is three segments joined by dots, the payload
/// being the second of them.
pub proof fn lemma_payload_is_segment(token: Seq<char>)
    requires
        payload_of(token) is Some,
    ensures
        exists|header: Seq<char>, signature: Seq<char>|
            is_segment(header) && is_segment(payload_of(token).unwrap()) && is_segment(signature)
                && token == #[trigger] joined(header, payload_of(token).unwrap(), signature),
{
    let first_dot = segment_end(token, 0);
    let second_dot = segment_end(token, first_dot + 1);
    lemma_segment_end(token, 0);
    lemma_segment_end(token, first_dot + 1);
    lemma_segment_end(token, second_dot + 1);
    let header = token.subrange(0, first_dot);
    let payload = token.subrange(first_dot + 1, second_dot);
    let signature = token.subrange(second_dot + 1, token.len() as int);
    assert(is_segment(header));
    assert(is_segment(payload));
    assert(is_segment(signature));
    assert(token =~= joined(header, payload, signature));
    assert(payload_of(token) == Some(payload));
    assert(token == joined(header, payload_of(token).unwrap(), signature));
}

fn is_token_byte(b: u8) -> (good: bool)
    ensures
        good == ((65 <= b <= 90) || (97 <= b <= 122) || (48 <= b <= 57) || b == 95 || b == 45),
{
    (65 <= b && b <= 90) || (97 <= b && b <= 122) || (48 <= b && b <= 57) || b == 95 || b == 45
}

fn scan_segment(bytes: &[u8], from: usize, Ghost(text): Ghost<Seq<char>>) -> (end: usize)
    requires
        from <= bytes.len(),
        is_ascii_chars(text),
        bytes@ == Seq::new(text.len(), |k: int| text[k] as u8),
    ensures
        end == segment_end(text, from as int),
        from <= end <= bytes.len(),
{
    let mut i: usize = from;
    while i < bytes.len()
        invariant
            from <= i <= bytes.len(),
            is_ascii_chars(text),
            bytes@ == Seq::new(text.len(), |k: int| text[k] as u8),
            segment_end(text, from as int) == segment_end(text, i as int),
        decreases bytes.len() - i,
    {
        assert(bytes[i as int] == text[i as int] as u8);
        if !is_token_byte(bytes[i]) {
            return i;
        }
        i += 1;
    }
    i
}

/// The views of an optional string.
pub open spec fn text_of(text: Option<&str>) -> Option<Seq<char>> {
    match text {
        Some(t) => Some(t@),
        None => None,
    }
}

/// Finds the second segment of a three-segment token.
pub fn payload_segment(token: &str) -> (payload: Option<&str>)
    ensures
        text_of(payload) == payload_of(token@),
{
    broadcast use vstd::string::is_ascii_spec_bytes;

    if !token.is_ascii() {
        proof {
            if payload_span(token@) is Some {
                lemma_token_is_ascii(token@);
            }
        }
        return None;
    }
    let bytes = token.as_bytes();
    let n = bytes.len();
    let first_dot = scan_segment(bytes, 0, Ghost(token@));
    if first_dot == 0 || first_dot >= n || bytes[first_dot] != 46 {
        return None;
    }
    let second_dot = scan_segment(bytes, first_dot + 1, Ghost(token@));
    if second_dot == first_dot + 1 || second_dot >= n || bytes[second_dot] != 46 {
        return None;
    }
    let end = scan_segment(bytes, second_dot + 1, Ghost(token@));
    if end == second_dot + 1 || end != n {
        return None;
    }
    Some(token.substring_ascii(first_dot + 1, second_dot))
}

/// What `base64`'s engine for the URL-safe alphabet without padding decodes
/// `text` to; `None` where it rejects `text`.
pub uninterp spec fn url_safe_no_pad_decoded(text: Seq<char>) -> Option<Seq<u8>>;

/// The error of `base64`'s decoders.
#[verifier::external_type_specification]
#[verifier::external_body]
pub struct ExDecodeError(base64::DecodeError);

/// Calls `base64::Engine::decode` on the engine
/// `base64::prelude::BASE64_URL_SAFE_NO_PAD`. Trusted: whether it succeeds,
/// and with which bytes, is the one function of `text` that
/// `url_safe_no_pad_decoded` names.
#[verifier::external_body]
pub(crate) fn decode_url_safe_no_pad(text: &str) -> (decoded: Result<Vec<u8>, base64::DecodeError>)
    ensures
        decoded is Ok <==> url_safe_no_pad_decoded(text@) is Some,
        decoded is Ok ==> decoded.unwrap()@ == url_safe_no_pad_decoded(text@).unwrap(),
{
    base64::Engine::decode(&base64::prelude::BASE64_URL_SAFE_NO_PAD, text)
}

/// `text` without the white space that leads and trails it, as `str::trim`
/// of the standard library takes it away.
pub uninterp spec fn trimmed(text: Seq<char>) -> Seq<char>;

/// Calls `str::trim`. Trusted: the result is the one function of `text` that
/// `trimmed` names.
#[verifier::external_body]
pub(crate) fn trim(text: &str) -> (inner: &str)
    ensures
        inner@ == trimmed(text@),
{
    text.trim()
}

/// What the two members of a token's payload say together: the subject, as a
/// number or as decimal text, and the expiry, as a whole number of seconds.
pub open spec fn claims_of(subject: WireModel, expiry: WireModel) -> Result<TokenInfo, TokenError> {
    match (wire_unsigned(subject, u64::MAX), wire_timestamp(expiry)) {
        (Ok(id), Ok(at)) => Ok(TokenInfo { user_id: SteamId(id), expires_on: at }),
        _ => Err(TokenError::ParseFailed),
    }
}

/// What the decoded payload of a token says.
pub open spec fn payload_claims(payload: Seq<u8>) -> Result<TokenInfo, TokenError> {
    claims_of(json_member(payload, "sub"@), json_member(payload, "exp"@))
}

/// What a token says. The empty token says that nothing was entered; one
/// that is not of three segments, whose second segment is no base64, or
/// whose payload lacks a subject or an expiry, fails to parse.
pub open spec fn token_claims(token: Seq<char>) -> Result<TokenInfo, TokenError> {
    if token.len() == 0 {
        Err(TokenError::EmptyString)
    } else {
        match payload_of(token) {
            None => Err(TokenError::ParseFailed),
            Some(payload) => match url_safe_no_pad_decoded(payload) {
                None => Err(TokenError::ParseFailed),
                Some(bytes) => payload_claims(bytes),
            },
        }
    }
}

/// Puts the two members of a token's payload together.
pub fn read_claims(subject: &WireValue, expiry: &WireValue) -> (claims: Result<
    TokenInfo,
    TokenError,
>)
    ensures
        claims == claims_of(subject@, expiry@),
{
    match (deserialize_u64(subject), deserialize_timestamp(expiry)) {
        (Ok(id), Ok(at)) => Ok(TokenInfo { user_id: SteamId(id), expires_on: at }),
        _ => Err(TokenError::ParseFailed),
    }
}

/// Reads the claims out of the decoded payload of a token.
pub fn parse_payload(payload: &[u8]) -> (claims: Result<TokenInfo, TokenError>)
    ensures
        claims == payload_claims(payload@),
{
    let subject = read_member(payload, "sub");
    let expiry = read_member(payload, "exp");
    read_claims(&subject, &expiry)
}

/// Reads what a token says, without asking whether it is still good.
pub fn parse_access_token(token: &str) -> (claims: Result<TokenInfo, TokenError>)
    ensures
        claims == token_claims(token@),
{
    if token.unicode_len() == 0 {
        return Err(TokenError::EmptyString);
    }
    let payload = match payload_segment(token) {
        Some(payload) => payload,
        None => {
            return Err(TokenError::ParseFailed);
        },
    };
    match decode_url_safe_no_pad(payload) {
        Ok(bytes) => parse_payload(bytes.as_slice()),
        Err(_) => Err(TokenError::ParseFailed),
    }
}

impl AccessToken {
    /// Takes a token as it was entered: trims it and reads what it says.
    pub fn new(raw: &str) -> (token: AccessToken)
        ensures
            token.token@ == trimmed(raw@),
            token.info == token_claims(trimmed(raw@)),
    {
        let inner = trim(raw);
        AccessToken { info: parse_access_token(inner), token: inner.to_owned() }
    }

    /// Whether the token parsed and its expiry is not after `now`.
    pub open spec fn expired_at(&self, now: i64) -> bool {
        self.info is Ok && now >= self.info.unwrap().expires_on
    }

    /// Whether the token has expired at the instant `now`.
    pub fn is_expired_at(&self, now: i64) -> (expired: bool)
        ensures
            expired == self.expired_at(now),
    {
        match &self.info {
            Ok(info) => now >= info.expires_on,
            Err(_) => false,
        }
    }

    /// Whether the token has expired at the instant the wall clock shows.
    pub fn is_expired(&self) -> (expired: bool)
        ensures
            exists|now: i64| expired == #[trigger] self.expired_at(now),
    {
        let now = unix_now();
        self.is_expired_at(now)
    }

    /// Turns a token that has expired at `now` into the error that says so,
    /// and leaves any other as it is.
    pub fn note_expiry_at(&mut self, now: i64) -> (expired: bool)
        ensures
            expired == old(self).expired_at(now),
            final(self).token == old(self).token,
            final(self).info == if expired {
                Err(TokenError::Expired)
            } else {
                old(self).info
            },
    {
        let expired = self.is_expired_at(now);
        if expired {
            self.info = Err(TokenError::Expired);
        }
        expired
    }
}

impl Default for AccessToken {
    fn default() -> (token: Self)
        ensures
            token.info == Err::<TokenInfo, TokenError>(TokenError::EmptyString),
            token.token@ == Seq::<char>::empty(),
    {
        AccessToken { info: Err(TokenError::EmptyString), token: String::new() }
    }
}

} // verus!
