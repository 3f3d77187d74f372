//! HTTP Basic authentication against the credentials of the settings.

use crate::config::Config;
use crate::request::{header_text, header_text_of, header_value, Request, RequestView};
use crate::text::{
    chars_of, find, first_occurrence, lemma_first_occurrence_is, lemma_occurrence_from,
    matches_at, occurs_at, utf8_text,
};
use vstd::prelude::*;
use vstd::string::*;
use vstd::utf8::{decode_utf8, valid_utf8};

verus! {

/// The bytes that the `base64` crate decodes a text to with its standard
/// alphabet and padding, where the text is such an encoding.
pub uninterp spec fn base64_decoded(text: Seq<char>) -> Option<Seq<u8>>;

/// The user name and the password that a credentials text holds: what stands
/// before its first colon, and what stands after it.
pub open spec fn credentials_of(text: Seq<char>) -> Option<(Seq<char>, Seq<char>)> {
    match first_occurrence(text, seq![':']) {
        Some(at) => Some((text.subrange(0, at), text.subrange(at + 1, text.len() as int))),
        None => None,
    }
}

/// Whether a credentials text names exactly this user and this password.
pub open spec fn accepts(user: Seq<char>, password: Seq<char>, credentials: Seq<char>) -> bool {
    credentials_of(credentials) == Some((user, password))
}

/// Whether the text of an `Authorization` header carries these credentials:
/// the scheme `Basic`, a space, and the base64 encoding of a text that names
/// this user and this password.
pub open spec fn header_accepts(user: Seq<char>, password: Seq<char>, header: Seq<char>) -> bool {
    &&& header.len() >= 6
    &&& header.subrange(0, 6) == "Basic "@
    &&& match base64_decoded(header.skip(6)) {
        Some(bytes) => valid_utf8(bytes) && accepts(user, password, decode_utf8(bytes)),
        None => false,
    }
}

/// Whether the `Authorization` header of a request is of the scheme `Basic`
/// and decodes to this credentials text.
pub open spec fn presents(request: RequestView, credentials: Seq<char>) -> bool {
    match header_value(request.headers, "authorization"@) {
        Some(value) => match header_text_of(value) {
            Some(header) => {
                &&& header.len() >= 6
                &&& header.subrange(0, 6) == "Basic "@
                &&& match base64_decoded(header.skip(6)) {
                    Some(bytes) => valid_utf8(bytes) && decode_utf8(bytes) == credentials,
                    None => false,
                }
            },
            None => false,
        },
        None => false,
    }
}

/// Whether a request shows these credentials in its `Authorization` header.
pub open spec fn authorized(user: Seq<char>, password: Seq<char>, request: RequestView) -> bool {
    match header_value(request.headers, "authorization"@) {
        Some(value) => match header_text_of(value) {
            Some(header) => header_accepts(user, password, header),
            None => false,
        },
        None => false,
    }
}

/// Calls `consistenttime::ct_u8_slice_eq` on the bytes of the two texts. It
/// tells whether the texts are the same, in a time that depends on their
/// lengths alone.
#[verifier::external_body]
pub(crate) fn compare_secure(s1: &str, s2: &str) -> (same: bool)
    ensures
        same == (s1@ == s2@),
{
    consistenttime::ct_u8_slice_eq(s1.as_bytes(), s2.as_bytes())
}

/// Calls `base64::decode`. The bytes are those that the crate decodes the
/// text to, and there are none where it refuses the text.
#[verifier::external_body]
pub(crate) fn base64_decode(text: &str) -> (bytes: Option<Vec<u8>>)
    ensures
        bytes matches Some(b) ==> base64_decoded(text@) == Some(b@),
        bytes is None ==> base64_decoded(text@) is None,
{
    match base64::decode(text) {
        Ok(bytes) => Some(bytes),
        Err(_) => None,
    }
}

/// A credentials text is accepted exactly if it is the user name, a colon
/// and the password, and the user name holds no colon.
pub proof fn lemma_accepts_exactly(user: Seq<char>, password: Seq<char>, credentials: Seq<char>)
    ensures
        accepts(user, password, credentials) <==> (credentials == user + seq![':'] + password
            && !user.contains(':')),
{
    let colon = seq![':'];
    lemma_occurrence_from(credentials, colon, 0);
    assert forall|j: int| occurs_at(credentials, colon, j) <==> (0 <= j < credentials.len()
        && credentials[j] == ':') by {
        if 0 <= j < credentials.len() {
            assert(credentials.subrange(j, j + 1)[0] == credentials[j]);
            if credentials[j] == ':' {
                assert(credentials.subrange(j, j + 1) =~= colon);
            }
        }
    }
    if accepts(user, password, credentials) {
        let at = first_occurrence(credentials, colon).unwrap();
        assert(credentials =~= user + colon + password);
        if user.contains(':') {
            let j = choose|j: int| 0 <= j < user.len() && user[j] == ':';
            assert(credentials[j] == ':');
            assert(occurs_at(credentials, colon, j));
        }
    }
    if credentials == user + colon + password && !user.contains(':') {
        let at = user.len() as int;
        assert(credentials[at] == ':');
        assert forall|j: int| 0 <= j < at implies !occurs_at(credentials, colon, j) by {
            assert(credentials[j] == user[j]);
            if user[j] == ':' {
                assert(user.contains(':'));
            }
        }
        lemma_first_occurrence_is(credentials, colon, at);
        assert(credentials.subrange(0, at) =~= user);
        assert(credentials.subrange(at + 1, credentials.len() as int) =~= password);
    }
}

/// Credentials that differ from the expected ones, be it in one character of
/// the user name or of the password, are not accepted.
pub proof fn lemma_other_credentials_rejected(
    user: Seq<char>,
    password: Seq<char>,
    given_user: Seq<char>,
    given_password: Seq<char>,
)
    requires
        given_user != user || given_password != password,
        !given_user.contains(':'),
    ensures
        !accepts(user, password, given_user + seq![':'] + given_password),
{
    lemma_accepts_exactly(given_user, given_password, given_user + seq![':'] + given_password);
}

/// Whether a credentials text, as a caller has sent it, names the expected
/// user and password. Both are compared in full, whatever the first
/// comparison gave.
pub fn credentials_match(expected_user: &str, expected_password: &str, credentials: &str) -> (same:
    bool)
    ensures
        same == accepts(expected_user@, expected_password@, credentials@),
{
    let text = chars_of(credentials);
    let colon = chars_of(":");
    proof {
        reveal_strlit(":");
        assert(colon@ =~= seq![':']);
        assert(text@.subrange(0, text.len() as int) =~= text@);
    }
    match find(&text, &colon, 0, text.len()) {
        Some(at) => {
            let user = credentials.substring_char(0, at);
            let password = credentials.substring_char(at + 1, text.len());
            let same_user = compare_secure(user, expected_user);
            let same_password = compare_secure(password, expected_password);
            same_user && same_password
        },
        None => false,
    }
}

/// Whether the text of an `Authorization` header carries the expected
/// credentials.
pub fn header_matches(expected_user: &str, expected_password: &str, header: &str) -> (same: bool)
    ensures
        same == header_accepts(expected_user@, expected_password@, header@),
{
    let text = chars_of(header);
    let scheme = chars_of("Basic ");
    proof {
        reveal_strlit("Basic ");
    }
    if !matches_at(&text, &scheme, 0) {
        return false;
    }
    let encoded = header.substring_char(6, text.len());
    assert(encoded@ =~= header@.skip(6));
    match base64_decode(encoded) {
        Some(bytes) => match utf8_text(bytes) {
            Some(credentials) => credentials_match(
                expected_user,
                expected_password,
                credentials.as_str(),
            ),
            None => false,
        },
        None => false,
    }
}

/// Whether a request shows the credentials of the settings. A request
/// without an `Authorization` header, or with one that is no text, is of the
/// wrong scheme or holds no credentials, does not.
pub fn authenticate(config: &Config, request: &Request) -> (allowed: bool)
    ensures
        allowed == authorized(config.http_auth_user@, config.http_auth_password@, request@),
{
    match request.header("authorization") {
        Some(value) => match header_text(value) {
            Some(header) => header_matches(
                config.http_auth_user.as_str(),
                config.http_auth_password.as_str(),
                header.as_str(),
            ),
            None => false,
        },
        None => false,
    }
}

} // verus!
