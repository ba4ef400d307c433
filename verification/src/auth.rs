//! The two-leg OAuth2 + OIDC login flow of the game's account service.
//!
//! 1. Build a PKCE verifier/challenge and a "login" authorize URL, open it in a browser.
//! 2. The service redirects to `redirect_uri` with `?code=...&state=...` after the user logs in.
//! 3. Exchange `code` (+ verifier) for `{id_token, access_token, refresh_token}`.
//! 4. Build a second ("consent") authorize URL using `id_token` as a hint; the service
//!    redirects to `http://localhost` with `#code=...&id_token=...` in the URL fragment.
//! 5. Exchange that second `id_token` for a game session ID.
//!
//! Both redirects are pasted back by the user; this module parses them and drives the flow.

use vstd::prelude::*;
use crate::request::RequestFailure;
use crate::characters::{Character, CharacterError};
use crate::text::{
    chars_of, concat_str, find, find_from_exec, lemma_find_char_at_join,
    lemma_find_none_without_first, lemma_lacks_joined, lemma_split_at_first,
    lemma_split_without_separator, opt_chars, opt_string, slice_chars, split_str,
    split_str_exec, string_of_all,
};

verus! {

/// The account/OAuth origin.
pub const ACCOUNT_ORIGIN: &'static str = "https://account.jagex.com";

/// The game-session origin (character list, session creation).
pub const AUTH_ORIGIN: &'static str = "https://auth.jagex.com";

/// Path of the authorize endpoint.
pub const ENDPOINT_AUTH: &'static str = "/oauth2/auth";

/// Path of the token endpoint.
pub const ENDPOINT_TOKEN: &'static str = "/oauth2/token";

/// Path of the game-session endpoint.
pub const ENDPOINT_SESSION: &'static str = "/game-session/v1/sessions";

/// The only redirect_uri registered for the login leg's client ID: a page of the game's own
/// site, whose address the user pastes back.
pub const LOGIN_REDIRECT_URI: &'static str = "https://secure.runescape.com/m=weblogin/launcher-redirect";

/// OAuth client ID of the login leg.
pub const CLIENT_ID: &'static str = "com_jagex_auth_desktop_launcher";

/// OAuth client ID of the consent leg (the one registered with `http://localhost`).
pub const CONSENT_CLIENT_ID: &'static str = "1fddee4e-b100-4f4e-b2b0-097f9088f9d2";

/// Scopes requested by the login leg.
pub const LOGIN_SCOPES: &'static str = "openid offline gamesso.token.create user.profile.read user.entitlement.read user.game.read user.sku.read user.voucher.redeem";

/// Scopes requested by the consent leg.
pub const CONSENT_SCOPES: &'static str = "openid offline";

/// Characters of a PKCE verifier.
pub const VERIFIER_CHARS: &'static str = "ABCDEFGHIJKLMNOPQRSTUVWXYZabcdefghijklmnopqrstuvwxyz0123456789-._";

/// Characters of a state or nonce.
pub const STATE_CHARS: &'static str = "ABCDEFGHIJKLMNOPQRSTUVWXYZabcdefghijklmnopqrstuvwxyz";

/// Length of a PKCE verifier.
pub const VERIFIER_LENGTH: usize = 96;

/// Length of a state or nonce.
pub const STATE_LENGTH: usize = 32;

/// Failures of the OAuth steps.
#[derive(Debug, Clone, PartialEq, Eq)]
pub enum AuthError {
    /// A network request failed.
    Request(RequestFailure),
    /// The id_token is not a well-formed JWT with a JSON body.
    InvalidIdToken,
    /// The redirect URL lacks a code or state parameter.
    InvalidRedirect,
    /// The redirect's state differs from the one sent in the authorize request (possible CSRF).
    StateMismatch,
}

/// The text that describes an OAuth failure.
pub open spec fn auth_error_text(e: AuthError) -> Seq<char> {
    match e {
        AuthError::Request(f) => "network request failed: "@ + f.message@,
        AuthError::InvalidIdToken => "invalid or malformed id_token"@,
        AuthError::InvalidRedirect => "redirect URL is missing a code or state parameter"@,
        AuthError::StateMismatch => "redirect state does not match the state sent in the authorize request (possible CSRF)"@,
    }
}

impl AuthError {
    /// The text that describes the failure.
    pub fn message(&self) -> (r: String)
        ensures
            r@ == auth_error_text(*self),
    {
        match self {
            AuthError::Request(f) => concat_str("network request failed: ", f.message.as_str()),
            AuthError::InvalidIdToken => String::from_str("invalid or malformed id_token"),
            AuthError::InvalidRedirect => String::from_str(
                "redirect URL is missing a code or state parameter",
            ),
            AuthError::StateMismatch => String::from_str(
                "redirect state does not match the state sent in the authorize request (possible CSRF)",
            ),
        }
    }
}

// ---------------------------------------------------------------------------------------------
// Percent-decoding, by the `urlencoding` crate
// ---------------------------------------------------------------------------------------------

/// The value of an ASCII hexadecimal digit, of either case.
pub open spec fn hex_value(b: u8) -> Option<u8> {
    if 0x30 <= b <= 0x39 {
        Some((b - 0x30) as u8)
    } else if 0x41 <= b <= 0x46 {
        Some((b - 0x41 + 10) as u8)
    } else if 0x61 <= b <= 0x66 {
        Some((b - 0x61 + 10) as u8)
    } else {
        None
    }
}

/// Bytes with each `%` that is followed by two hexadecimal digits replaced by the byte those
/// digits spell; every other byte, a `%` without two digits after it included, is kept.
pub open spec fn unescape_percent(bs: Seq<u8>) -> Seq<u8>
    decreases bs.len(),
{
    if bs.len() == 0 {
        bs
    } else if bs[0] == 0x25 && bs.len() >= 3 && hex_value(bs[1]) is Some && hex_value(bs[2]) is Some {
        seq![(hex_value(bs[1])->0 * 16 + hex_value(bs[2])->0) as u8] + unescape_percent(bs.skip(3))
    } else {
        seq![bs[0]] + unescape_percent(bs.skip(1))
    }
}

/// The percent-decoding of a text: its UTF-8 bytes unescaped and read back as UTF-8, or `None`
/// where the unescaped bytes are not UTF-8.
pub open spec fn percent_decoded(s: Seq<char>) -> Option<Seq<char>> {
    let bytes = unescape_percent(vstd::utf8::encode_utf8(s));
    if vstd::utf8::valid_utf8(bytes) {
        Some(vstd::utf8::decode_utf8(bytes))
    } else {
        None
    }
}

/// Calls `urlencoding::decode`: it unescapes the `%XX` escapes of the text's UTF-8 bytes (a `%`
/// without two hexadecimal digits after it stays as it is, and `+` is not turned into a space)
/// and reads the bytes back as UTF-8, failing where they are not UTF-8; the failure becomes
/// `None`.
#[verifier::external_body]
fn url_decode(s: &str) -> (r: Option<String>)
    ensures
        opt_string(r) == percent_decoded(s@),
{
    urlencoding::decode(s).ok().map(|c| c.into_owned())
}

// ---------------------------------------------------------------------------------------------
// Redirect URLs
// ---------------------------------------------------------------------------------------------

/// The text of `s` after its first `c`, if `s` holds a `c`.
pub open spec fn after_first(s: Seq<char>, c: char) -> Option<Seq<char>> {
    match find(s, seq![c]) {
        Some(i) => Some(s.skip(i + 1)),
        None => None,
    }
}

/// A `key=value` piece split at its first `=`.
pub open spec fn key_value(piece: Seq<char>) -> Option<(Seq<char>, Seq<char>)> {
    match find(piece, seq!['=']) {
        Some(i) => Some((piece.take(i), piece.skip(i + 1))),
        None => None,
    }
}

/// The raw value of the last piece whose key is `key` (a later piece overrides an earlier one).
pub open spec fn raw_param(pieces: Seq<Seq<char>>, key: Seq<char>) -> Option<Seq<char>>
    decreases pieces.len(),
{
    if pieces.len() == 0 {
        None
    } else {
        match key_value(pieces.last()) {
            Some((k, v)) => if k == key {
                Some(v)
            } else {
                raw_param(pieces.drop_last(), key)
            },
            None => raw_param(pieces.drop_last(), key),
        }
    }
}

/// A decoded parameter value: empty where decoding fails.
pub open spec fn decoded_or_empty(v: Seq<char>) -> Seq<char> {
    match percent_decoded(v) {
        Some(d) => d,
        None => Seq::empty(),
    }
}

/// The decoded value of parameter `key` in a `k=v&k=v...` parameter string.
pub open spec fn param(params: Seq<char>, key: Seq<char>) -> Option<Seq<char>> {
    match raw_param(split_str(params, seq!['&']), key) {
        Some(v) => Some(decoded_or_empty(v)),
        None => None,
    }
}

/// The outcome of reading a redirect: the parameter string is the text after the first
/// `delimiter`; its `state` must equal `expected_state`; then the parameters `wanted` are read
/// in order. Each missing parameter, or a missing delimiter, gives `InvalidRedirect`.
pub open spec fn redirect_params(
    url: Seq<char>,
    delimiter: char,
    expected_state: Seq<char>,
    wanted: Seq<Seq<char>>,
) -> Result<Seq<Seq<char>>, AuthError> {
    match after_first(url, delimiter) {
        None => Err(AuthError::InvalidRedirect),
        Some(params) => match param(params, state_key()) {
            None => Err(AuthError::InvalidRedirect),
            Some(st) => if st != expected_state {
                Err(AuthError::StateMismatch)
            } else {
                wanted_params(params, wanted)
            },
        },
    }
}

/// The values of the parameters `wanted`, or `InvalidRedirect` at the first that is missing.
pub open spec fn wanted_params(params: Seq<char>, wanted: Seq<Seq<char>>) -> Result<
    Seq<Seq<char>>,
    AuthError,
>
    decreases wanted.len(),
{
    if wanted.len() == 0 {
        Ok(Seq::empty())
    } else {
        match param(params, wanted[0]) {
            None => Err(AuthError::InvalidRedirect),
            Some(v) => match wanted_params(params, wanted.drop_first()) {
                Ok(rest) => Ok(seq![v] + rest),
                Err(e) => Err(e),
            },
        }
    }
}

pub open spec fn state_key() -> Seq<char> {
    seq!['s', 't', 'a', 't', 'e']
}

pub open spec fn code_key() -> Seq<char> {
    seq!['c', 'o', 'd', 'e']
}

pub open spec fn id_token_key() -> Seq<char> {
    seq!['i', 'd', '_', 't', 'o', 'k', 'e', 'n']
}

/// The `code` extracted from a first-leg redirect URL.
#[derive(Debug, Clone, PartialEq, Eq)]
pub struct RedirectCode {
    pub code: String,
}

/// The `code` and `id_token` extracted from a second-leg (consent) redirect URL.
#[derive(Debug, Clone, PartialEq, Eq)]
pub struct ConsentRedirect {
    pub code: String,
    pub id_token: String,
}

fn chars_eq(a: &Vec<char>, b: &Vec<char>) -> (r: bool)
    ensures
        r == (a@ == b@),
{
    if a.len() != b.len() {
        return false;
    }
    let mut i: usize = 0;
    while i < a.len()
        invariant
            i <= a.len() == b.len(),
            forall|j: int| 0 <= j < i ==> a@[j] == b@[j],
        decreases a.len() - i,
    {
        if a[i] != b[i] {
            return false;
        }
        i += 1;
    }
    assert(a@ =~= b@);
    true
}

fn key_value_exec(piece: &Vec<char>) -> (r: Option<(Vec<char>, Vec<char>)>)
    ensures
        match r {
            Some((k, v)) => key_value(piece@) == Some((k@, v@)),
            None => key_value(piece@) is None,
        },
{
    let eq = vec!['='];
    assert(eq@ =~= seq!['=']);
    match find_from_exec(piece, &eq, 0) {
        Some(i) => {
            let k = slice_chars(piece, 0, i);
            let v = slice_chars(piece, i + 1, piece.len());
            assert(k@ =~= piece@.take(i as int));
            assert(v@ =~= piece@.skip(i + 1));
            Some((k, v))
        },
        None => None,
    }
}

fn raw_param_exec(pieces: &Vec<Vec<char>>, key: &Vec<char>) -> (r: Option<Vec<char>>)
    ensures
        opt_chars(r) == raw_param(pieces.deep_view(), key@),
{
    let ghost all = pieces.deep_view();
    let mut found: Option<Vec<char>> = None;
    let mut i: usize = 0;
    assert(all.take(0) =~= Seq::<Seq<char>>::empty());
    while i < pieces.len()
        invariant
            i <= pieces.len(),
            all == pieces.deep_view(),
            opt_chars(found) == raw_param(all.take(i as int), key@),
        decreases pieces.len() - i,
    {
        assert(pieces@[i as int]@ == all[i as int]);
        assert(all.take(i + 1).drop_last() =~= all.take(i as int));
        assert(all.take(i + 1).last() == all[i as int]);
        match key_value_exec(&pieces[i]) {
            Some((k, v)) => {
                if chars_eq(&k, key) {
                    found = Some(v);
                }
            },
            None => {},
        }
        i += 1;
    }
    assert(all.take(i as int) =~= all);
    found
}

fn param_exec(pieces: &Vec<Vec<char>>, key: &Vec<char>) -> (r: Option<Vec<char>>)
    ensures
        match raw_param(pieces.deep_view(), key@) {
            Some(v) => opt_chars(r) == Some(decoded_or_empty(v)),
            None => r is None,
        },
{
    match raw_param_exec(pieces, key) {
        None => None,
        Some(raw) => {
            let s = string_of_all(&raw);
            match url_decode(s.as_str()) {
                Some(d) => Some(chars_of(d.as_str())),
                None => Some(Vec::new()),
            }
        },
    }
}

/// Reads the parameters of a redirect as `redirect_params` says.
fn read_redirect(url: &str, delimiter: char, expected_state: &str, wanted: &Vec<Vec<char>>) -> (r:
    Result<Vec<String>, AuthError>)
    ensures
        match (r, redirect_params(url@, delimiter, expected_state@, wanted.deep_view())) {
            (Ok(vs), Ok(ws)) => vs.len() == ws.len() && forall|j: int|
                0 <= j < ws.len() ==> #[trigger] vs@[j]@ == ws[j],
            (Err(e), Err(f)) => e == f,
            _ => false,
        },
        r matches Ok(vs) ==> vs.len() == wanted.len(),
{
    let v = chars_of(url);
    let delim = vec![delimiter];
    assert(delim@ =~= seq![delimiter]);
    let params = match find_from_exec(&v, &delim, 0) {
        None => return Err(AuthError::InvalidRedirect),
        Some(i) => slice_chars(&v, i + 1, v.len()),
    };
    assert(params@ =~= v@.skip(find(v@, seq![delimiter])->0 + 1));
    let amp = vec!['&'];
    assert(amp@ =~= seq!['&']);
    let pieces = split_str_exec(&params, &amp);
    let state_k = vec!['s', 't', 'a', 't', 'e'];
    assert(state_k@ =~= state_key());
    let state = match param_exec(&pieces, &state_k) {
        None => return Err(AuthError::InvalidRedirect),
        Some(st) => st,
    };
    let expected = chars_of(expected_state);
    if !chars_eq(&state, &expected) {
        return Err(AuthError::StateMismatch);
    }
    let ghost ws = wanted.deep_view();
    assert(after_first(url@, delimiter) == Some(params@));
    assert(redirect_params(url@, delimiter, expected_state@, ws) == wanted_params(params@, ws));
    let mut out: Vec<String> = Vec::new();
    let mut i: usize = 0;
    assert(ws.skip(0) =~= ws);
    while i < wanted.len()
        invariant
            i <= wanted.len(),
            ws == wanted.deep_view(),
            pieces.deep_view() == split_str(params@, seq!['&']),
            redirect_params(url@, delimiter, expected_state@, ws) == wanted_params(params@, ws),
            out.len() == i,
            forall|j: int| 0 <= j < i ==> #[trigger] param(params@, ws[j]) == Some(out@[j]@),
            wanted_params(params@, ws) == match wanted_params(params@, ws.skip(i as int)) {
                Ok(rest) => Ok(Seq::new(i as nat, |j: int| out@[j]@) + rest),
                Err(e) => Err(e),
            },
        decreases wanted.len() - i,
    {
        assert(wanted@[i as int]@ == ws[i as int]);
        let ghost tail = ws.skip(i as int);
        assert(tail[0] == ws[i as int]);
        assert(tail.drop_first() =~= ws.skip(i + 1));
        match param_exec(&pieces, &wanted[i]) {
            None => {
                assert(param(params@, ws[i as int]) is None);
                assert(wanted_params(params@, tail) == Err::<Seq<Seq<char>>, AuthError>(
                    AuthError::InvalidRedirect,
                ));
                return Err(AuthError::InvalidRedirect);
            },
            Some(val) => {
                assert(param(params@, ws[i as int]) == Some(val@));
                let ghost prev = Seq::new(i as nat, |j: int| out@[j]@);
                let item = string_of_all(&val);
                out.push(item);
                proof {
                    assert(Seq::new((i + 1) as nat, |j: int| out@[j]@) =~= prev + seq![val@]);
                    match wanted_params(params@, ws.skip(i + 1)) {
                        Ok(rest) => {
                            assert(wanted_params(params@, tail) == Ok::<Seq<Seq<char>>, AuthError>(
                                seq![val@] + rest,
                            ));
                            assert(prev + (seq![val@] + rest) =~= (prev + seq![val@]) + rest);
                        },
                        Err(e) => {
                            assert(wanted_params(params@, tail) == Err::<Seq<Seq<char>>, AuthError>(e));
                        },
                    }
                }
            },
        }
        i += 1;
    }
    assert(ws.skip(i as int) =~= Seq::<Seq<char>>::empty());
    Ok(out)
}

/// What a first-leg redirect URL yields: its `code`, read from the query string (after `?`).
pub open spec fn login_redirect(url: Seq<char>, expected_state: Seq<char>) -> Result<
    Seq<char>,
    AuthError,
> {
    match redirect_params(url, '?', expected_state, seq![code_key()]) {
        Ok(vs) => Ok(vs[0]),
        Err(e) => Err(e),
    }
}

/// What a consent redirect URL yields: its `code` and `id_token`, read from the fragment
/// (after `#`), where the consent leg's response puts them.
pub open spec fn consent_redirect(url: Seq<char>, expected_state: Seq<char>) -> Result<
    (Seq<char>, Seq<char>),
    AuthError,
> {
    match redirect_params(url, '#', expected_state, seq![code_key(), id_token_key()]) {
        Ok(vs) => Ok((vs[0], vs[1])),
        Err(e) => Err(e),
    }
}

/// Parses `code` out of a first-leg redirect URL and checks that its `state` matches the one
/// generated for this login attempt.
pub fn parse_redirect_url(url: &str, expected_state: &str) -> (r: Result<RedirectCode, AuthError>)
    ensures
        match (r, login_redirect(url@, expected_state@)) {
            (Ok(rc), Ok(code)) => rc.code@ == code,
            (Err(e), Err(f)) => e == f,
            _ => false,
        },
{
    let code_k = vec!['c', 'o', 'd', 'e'];
    assert(code_k@ =~= code_key());
    assert(code_k.deep_view() =~= code_k@);
    let mut wanted: Vec<Vec<char>> = Vec::new();
    wanted.push(code_k);
    assert(wanted.deep_view() =~= seq![code_key()]);
    match read_redirect(url, '?', expected_state, &wanted) {
        Ok(vs) => {
            let mut vs = vs;
            let code = vs.swap_remove(0);
            Ok(RedirectCode { code })
        },
        Err(e) => Err(e),
    }
}

/// Parses `code` and `id_token` out of a consent redirect URL (from its fragment) and checks
/// its `state`.
pub fn parse_consent_redirect(url: &str, expected_state: &str) -> (r: Result<
    ConsentRedirect,
    AuthError,
>)
    ensures
        match (r, consent_redirect(url@, expected_state@)) {
            (Ok(cr), Ok((code, id_token))) => cr.code@ == code && cr.id_token@ == id_token,
            (Err(e), Err(f)) => e == f,
            _ => false,
        },
{
    let code_k = vec!['c', 'o', 'd', 'e'];
    let token_k = vec!['i', 'd', '_', 't', 'o', 'k', 'e', 'n'];
    assert(code_k@ =~= code_key());
    assert(token_k@ =~= id_token_key());
    assert(code_k.deep_view() =~= code_k@);
    assert(token_k.deep_view() =~= token_k@);
    let mut wanted: Vec<Vec<char>> = Vec::new();
    wanted.push(code_k);
    wanted.push(token_k);
    assert(wanted.deep_view() =~= seq![code_key(), id_token_key()]);
    match read_redirect(url, '#', expected_state, &wanted) {
        Ok(vs) => {
            let mut vs = vs;
            let id_token = vs.swap_remove(1);
            let code = vs.swap_remove(0);
            Ok(ConsentRedirect { code, id_token })
        },
        Err(e) => Err(e),
    }
}


// ---------------------------------------------------------------------------------------------
// Laws of redirect parsing
// ---------------------------------------------------------------------------------------------

/// Bytes without `%` come out of unescaping as they went in.
proof fn lemma_unescape_without_percent(bs: Seq<u8>)
    requires
        forall|i: int| 0 <= i < bs.len() ==> bs[i] != 0x25,
    ensures
        unescape_percent(bs) == bs,
    decreases bs.len(),
{
    if bs.len() > 0 {
        lemma_unescape_without_percent(bs.skip(1));
        assert(seq![bs[0]] + bs.skip(1) =~= bs);
    }
}

/// An ASCII character whose byte is that of `%` is `%`.
proof fn lemma_ascii_percent_byte(c: char)
    requires
        '\0' <= c <= '\u{7f}',
        c as u8 == 0x25,
    ensures
        c == '%',
{
    let u = c as u32;
    assert(u <= 0x7f);
    assert((u as u8) == u) by (bit_vector)
        requires
            u <= 0x7f,
    ;
    assert(c as u8 == u as u8);
    assert(u == 0x25);
    vstd::utf8::char_u32_cast(c, u);
}

/// A text of ASCII characters without `%` decodes to itself.
pub proof fn lemma_plain_ascii_decodes_to_itself(v: Seq<char>)
    requires
        vstd::utf8::is_ascii_chars(v),
        !v.contains('%'),
    ensures
        percent_decoded(v) == Some(v),
        decoded_or_empty(v) == v,
{
    let bytes = vstd::utf8::encode_utf8(v);
    vstd::utf8::is_ascii_chars_encode_utf8(v);
    assert forall|i: int| 0 <= i < bytes.len() implies bytes[i] != 0x25 by {
        assert(v[i] as u8 == bytes[i]);
        if bytes[i] == 0x25 {
            lemma_ascii_percent_byte(v[i]);
        }
    }
    lemma_unescape_without_percent(bytes);
    vstd::utf8::encode_utf8_valid_utf8(v);
    vstd::utf8::encode_utf8_decode_utf8(v);
}

/// A `key=value` piece whose key holds no `=` splits into that key and value.
proof fn lemma_key_value_piece(key: Seq<char>, value: Seq<char>)
    requires
        !key.contains('='),
    ensures
        key_value(key + seq!['='] + value) == Some((key, value)),
{
    let s = key + seq!['='] + value;
    assert(s =~= key + (seq!['='] + value));
    lemma_find_char_at_join(key, seq!['='] + value, '=');
    assert(s.take(key.len() as int) =~= key);
    assert(s.skip(key.len() + 1int) =~= value);
}

/// The text after the first `c` of `prefix`, `c`, `rest`, where `prefix` holds no `c`.
proof fn lemma_after_first_at(prefix: Seq<char>, rest: Seq<char>, c: char)
    requires
        !prefix.contains(c),
    ensures
        after_first(prefix + seq![c] + rest, c) == Some(rest),
{
    let s = prefix + seq![c] + rest;
    assert(s =~= prefix + (seq![c] + rest));
    lemma_find_char_at_join(prefix, seq![c] + rest, c);
    assert(s.skip(prefix.len() + 1int) =~= rest);
}

/// The parameter keys hold neither `=` nor `&`.
proof fn lemma_keys_plain()
    ensures
        !code_key().contains('='),
        !code_key().contains('&'),
        !state_key().contains('='),
        !state_key().contains('&'),
        !id_token_key().contains('='),
        !id_token_key().contains('&'),
        !seq!['='].contains('&'),
{
    assert(!code_key().contains('=') && !code_key().contains('&')) by {
        assert forall|i: int| 0 <= i < code_key().len() implies code_key()[i] != '=' && code_key()[i] != '&' by {}
    }
    assert(!state_key().contains('=') && !state_key().contains('&')) by {
        assert forall|i: int| 0 <= i < state_key().len() implies state_key()[i] != '=' && state_key()[i] != '&' by {}
    }
    assert(!id_token_key().contains('=') && !id_token_key().contains('&')) by {
        assert forall|i: int| 0 <= i < id_token_key().len() implies id_token_key()[i] != '=' && id_token_key()[i] != '&' by {}
    }
    assert(!seq!['='].contains('&')) by {
        assert forall|i: int| 0 <= i < seq!['='].len() implies seq!['='][i] != '&' by {}
    }
}

/// The piece `key=value`.
pub open spec fn piece(key: Seq<char>, value: Seq<char>) -> Seq<char> {
    key + seq!['='] + value
}

/// A piece whose key is plain and whose value holds no `&` holds no `&`.
proof fn lemma_piece_lacks_amp(key: Seq<char>, value: Seq<char>)
    requires
        !key.contains('&'),
        !value.contains('&'),
    ensures
        !piece(key, value).contains('&'),
{
    lemma_keys_plain();
    lemma_lacks_joined(key, seq!['='], '&');
    lemma_lacks_joined(key + seq!['='], value, '&');
}

/// A first-leg redirect URL of the shape the login page produces, `prefix?code=C&state=S`,
/// yields the decoded code `C` when its decoded state `S` is the expected one, and a state
/// mismatch otherwise. `prefix` holds no `?`; `C` and `S` hold no `&`.
pub proof fn lemma_login_redirect_reads_code(
    prefix: Seq<char>,
    code: Seq<char>,
    state: Seq<char>,
    expected_state: Seq<char>,
)
    requires
        !prefix.contains('?'),
        !code.contains('&'),
        !state.contains('&'),
    ensures
        login_redirect(
            prefix + seq!['?'] + piece(code_key(), code) + seq!['&'] + piece(state_key(), state),
            expected_state,
        ) == if decoded_or_empty(state) == expected_state {
            Ok::<Seq<char>, AuthError>(decoded_or_empty(code))
        } else {
            Err(AuthError::StateMismatch)
        },
{
    let cp = piece(code_key(), code);
    let sp = piece(state_key(), state);
    let params = cp + seq!['&'] + sp;
    let url = prefix + seq!['?'] + cp + seq!['&'] + sp;
    assert(url =~= prefix + seq!['?'] + params);
    lemma_after_first_at(prefix, params, '?');
    lemma_keys_plain();
    lemma_piece_lacks_amp(code_key(), code);
    lemma_piece_lacks_amp(state_key(), state);
    lemma_split_at_first(cp, sp, '&');
    lemma_split_without_separator(sp, '&');
    let pieces = seq![cp, sp];
    assert(split_str(params, seq!['&']) =~= pieces);
    lemma_key_value_piece(code_key(), code);
    lemma_key_value_piece(state_key(), state);
    assert(pieces.last() == sp);
    assert(pieces.drop_last().last() == cp);
    assert(code_key() != state_key()) by {
        assert(code_key().len() != state_key().len());
    }
    assert(raw_param(pieces, state_key()) == Some(state));
    assert(raw_param(pieces.drop_last(), code_key()) == Some(code));
    assert(raw_param(pieces, code_key()) == Some(code));
    assert(seq![code_key()].drop_first() =~= Seq::<Seq<char>>::empty());
    assert(wanted_params(params, Seq::<Seq<char>>::empty()) == Ok::<Seq<Seq<char>>, AuthError>(Seq::empty()));
    if decoded_or_empty(state) == expected_state {
        assert(wanted_params(params, seq![code_key()]) == Ok::<Seq<Seq<char>>, AuthError>(
            seq![decoded_or_empty(code)] + Seq::empty(),
        ));
        assert(seq![decoded_or_empty(code)] + Seq::<Seq<char>>::empty() =~= seq![decoded_or_empty(code)]);
    }
}

/// A value that passes through a redirect as it is: ASCII, without `&` (which separates
/// parameters) and without `%` (which starts an escape).
pub open spec fn is_plain_value(v: Seq<char>) -> bool {
    vstd::utf8::is_ascii_chars(v) && !v.contains('&') && !v.contains('%')
}

/// Reading a login redirect gives back the code it carries: for plain values, the URL
/// `prefix?code=C&state=S` yields `C` when `S` is the expected state, and any other expected state
/// is refused as a mismatch.
pub proof fn lemma_login_redirect_round_trip(prefix: Seq<char>, code: Seq<char>, state: Seq<char>)
    requires
        !prefix.contains('?'),
        is_plain_value(code),
        is_plain_value(state),
    ensures
        login_redirect(
            prefix + seq!['?'] + piece(code_key(), code) + seq!['&'] + piece(state_key(), state),
            state,
        ) == Ok::<Seq<char>, AuthError>(code),
        forall|other: Seq<char>|
            other != state ==> #[trigger] login_redirect(
                prefix + seq!['?'] + piece(code_key(), code) + seq!['&'] + piece(state_key(), state),
                other,
            ) == Err::<Seq<char>, AuthError>(AuthError::StateMismatch),
{
    lemma_plain_ascii_decodes_to_itself(code);
    lemma_plain_ascii_decodes_to_itself(state);
    lemma_login_redirect_reads_code(prefix, code, state, state);
    assert forall|other: Seq<char>| other != state implies #[trigger] login_redirect(
        prefix + seq!['?'] + piece(code_key(), code) + seq!['&'] + piece(state_key(), state),
        other,
    ) == Err::<Seq<char>, AuthError>(AuthError::StateMismatch) by {
        lemma_login_redirect_reads_code(prefix, code, state, other);
    }
}

/// Reading a consent redirect gives back the code and id_token it carries: for plain values,
/// the URL `prefix#code=C&id_token=T&state=S` yields `(C, T)` when `S` is the expected state, and
/// any other expected state is refused as a mismatch.
pub proof fn lemma_consent_redirect_round_trip(
    prefix: Seq<char>,
    code: Seq<char>,
    id_token: Seq<char>,
    state: Seq<char>,
)
    requires
        !prefix.contains('#'),
        is_plain_value(code),
        is_plain_value(id_token),
        is_plain_value(state),
    ensures
        consent_redirect(
            prefix + seq!['#'] + piece(code_key(), code) + seq!['&'] + piece(id_token_key(), id_token)
                + seq!['&'] + piece(state_key(), state),
            state,
        ) == Ok::<(Seq<char>, Seq<char>), AuthError>((code, id_token)),
        forall|other: Seq<char>|
            other != state ==> #[trigger] consent_redirect(
                prefix + seq!['#'] + piece(code_key(), code) + seq!['&'] + piece(
                    id_token_key(),
                    id_token,
                ) + seq!['&'] + piece(state_key(), state),
                other,
            ) == Err::<(Seq<char>, Seq<char>), AuthError>(AuthError::StateMismatch),
{
    lemma_plain_ascii_decodes_to_itself(code);
    lemma_plain_ascii_decodes_to_itself(id_token);
    lemma_plain_ascii_decodes_to_itself(state);
    lemma_consent_redirect_reads_code_and_token(prefix, code, id_token, state, state);
    assert forall|other: Seq<char>| other != state implies #[trigger] consent_redirect(
        prefix + seq!['#'] + piece(code_key(), code) + seq!['&'] + piece(id_token_key(), id_token)
            + seq!['&'] + piece(state_key(), state),
        other,
    ) == Err::<(Seq<char>, Seq<char>), AuthError>(AuthError::StateMismatch) by {
        lemma_consent_redirect_reads_code_and_token(prefix, code, id_token, state, other);
    }
}

/// A redirect URL without its delimiter (`?` for the login leg, `#` for the consent leg) is
/// refused as an invalid redirect, whatever the expected state.
pub proof fn lemma_redirect_without_delimiter(url: Seq<char>, expected_state: Seq<char>)
    ensures
        !url.contains('?') ==> login_redirect(url, expected_state) == Err::<Seq<char>, AuthError>(
            AuthError::InvalidRedirect,
        ),
        !url.contains('#') ==> consent_redirect(url, expected_state) == Err::<
            (Seq<char>, Seq<char>),
            AuthError,
        >(AuthError::InvalidRedirect),
{
    if !url.contains('?') {
        lemma_find_none_without_first(url, seq!['?']);
    }
    if !url.contains('#') {
        lemma_find_none_without_first(url, seq!['#']);
    }
}

/// A consent redirect URL of the shape the consent page produces,
/// `prefix#code=C&id_token=T&state=S`, yields the decoded `C` and `T` when its decoded state
/// `S` is the expected one, and a state mismatch otherwise. `prefix` holds no `#`; `C`, `T` and
/// `S` hold no `&`.
pub proof fn lemma_consent_redirect_reads_code_and_token(
    prefix: Seq<char>,
    code: Seq<char>,
    id_token: Seq<char>,
    state: Seq<char>,
    expected_state: Seq<char>,
)
    requires
        !prefix.contains('#'),
        !code.contains('&'),
        !id_token.contains('&'),
        !state.contains('&'),
    ensures
        consent_redirect(
            prefix + seq!['#'] + piece(code_key(), code) + seq!['&'] + piece(id_token_key(), id_token)
                + seq!['&'] + piece(state_key(), state),
            expected_state,
        ) == if decoded_or_empty(state) == expected_state {
            Ok::<(Seq<char>, Seq<char>), AuthError>(
                (decoded_or_empty(code), decoded_or_empty(id_token)),
            )
        } else {
            Err(AuthError::StateMismatch)
        },
{
    let cp = piece(code_key(), code);
    let tp = piece(id_token_key(), id_token);
    let sp = piece(state_key(), state);
    let params = cp + seq!['&'] + (tp + seq!['&'] + sp);
    let url = prefix + seq!['#'] + cp + seq!['&'] + tp + seq!['&'] + sp;
    assert(url =~= prefix + seq!['#'] + params);
    lemma_after_first_at(prefix, params, '#');
    lemma_keys_plain();
    lemma_piece_lacks_amp(code_key(), code);
    lemma_piece_lacks_amp(id_token_key(), id_token);
    lemma_piece_lacks_amp(state_key(), state);
    lemma_split_at_first(cp, tp + seq!['&'] + sp, '&');
    lemma_split_at_first(tp, sp, '&');
    lemma_split_without_separator(sp, '&');
    let pieces = seq![cp, tp, sp];
    assert(split_str(params, seq!['&']) =~= pieces);
    lemma_key_value_piece(code_key(), code);
    lemma_key_value_piece(id_token_key(), id_token);
    lemma_key_value_piece(state_key(), state);
    assert(code_key() != state_key()) by {
        assert(code_key().len() != state_key().len());
    }
    assert(id_token_key() != state_key()) by {
        assert(id_token_key().len() != state_key().len());
    }
    assert(code_key() != id_token_key()) by {
        assert(code_key().len() != id_token_key().len());
    }
    let p2 = pieces.drop_last();
    let p1 = p2.drop_last();
    assert(p2 =~= seq![cp, tp]);
    assert(p1 =~= seq![cp]);
    assert(raw_param(pieces, state_key()) == Some(state));
    assert(raw_param(p1, code_key()) == Some(code));
    assert(raw_param(p2, code_key()) == Some(code));
    assert(raw_param(pieces, code_key()) == Some(code));
    assert(raw_param(p2, id_token_key()) == Some(id_token));
    assert(raw_param(pieces, id_token_key()) == Some(id_token));
    let wanted = seq![code_key(), id_token_key()];
    assert(wanted.drop_first() =~= seq![id_token_key()]);
    assert(wanted.drop_first().drop_first() =~= Seq::<Seq<char>>::empty());
    if decoded_or_empty(state) == expected_state {
        let dc = decoded_or_empty(code);
        let dt = decoded_or_empty(id_token);
        assert(wanted_params(params, Seq::<Seq<char>>::empty()) == Ok::<Seq<Seq<char>>, AuthError>(
            Seq::empty(),
        ));
        assert(wanted_params(params, seq![id_token_key()]) == Ok::<Seq<Seq<char>>, AuthError>(
            seq![dt] + Seq::empty(),
        ));
        assert(seq![dt] + Seq::<Seq<char>>::empty() =~= seq![dt]);
        assert(wanted_params(params, wanted) == Ok::<Seq<Seq<char>>, AuthError>(seq![dc] + seq![dt]));
        assert(seq![dc] + seq![dt] =~= seq![dc, dt]);
    }
}

// ---------------------------------------------------------------------------------------------
// Calls into outside crates
// ---------------------------------------------------------------------------------------------

/// The bytes that percent-encoding leaves as they are: ASCII letters and digits and `-`, `_`,
/// `.`, `~`.
pub open spec fn is_unreserved_byte(b: u8) -> bool {
    ||| 0x30 <= b <= 0x39
    ||| 0x41 <= b <= 0x5a
    ||| 0x61 <= b <= 0x7a
    ||| b == 0x2d
    ||| b == 0x2e
    ||| b == 0x5f
    ||| b == 0x7e
}

/// The upper-case hexadecimal digit of `d`, below 16.
pub open spec fn hex_upper(d: u8) -> char {
    seq!['0', '1', '2', '3', '4', '5', '6', '7', '8', '9', 'A', 'B', 'C', 'D', 'E', 'F'][d as int]
}

/// Bytes percent-encoded: an unreserved byte stands for itself, every other byte becomes `%`
/// and its two upper-case hexadecimal digits.
pub open spec fn escape_bytes(bs: Seq<u8>) -> Seq<char>
    decreases bs.len(),
{
    if bs.len() == 0 {
        Seq::empty()
    } else {
        (if is_unreserved_byte(bs[0]) {
            seq![bs[0] as char]
        } else {
            seq!['%', hex_upper(bs[0] / 16), hex_upper(bs[0] % 16)]
        }) + escape_bytes(bs.drop_first())
    }
}

/// The percent-encoding of a text: of its UTF-8 bytes.
pub open spec fn percent_encoded(s: Seq<char>) -> Seq<char> {
    escape_bytes(vstd::utf8::encode_utf8(s))
}

/// Calls `urlencoding::encode`, which percent-encodes every byte of the text's UTF-8 encoding
/// except ASCII letters, digits and `-`, `_`, `.`, `~`, with upper-case hexadecimal digits.
#[verifier::external_body]
fn url_encode(s: &str) -> (r: String)
    ensures
        r@ == percent_encoded(s@),
{
    urlencoding::encode(s).into_owned()
}

/// The SHA-256 digest of some bytes.
pub uninterp spec fn sha256(data: Seq<u8>) -> Seq<u8>;

/// Calls `sha2::Sha256::digest`. The digest is named `sha256`; its length, 32 bytes, is stated.
#[verifier::external_body]
fn sha256_digest(data: &[u8]) -> (r: Vec<u8>)
    ensures
        r@ == sha256(data@),
        r@.len() == 32,
{
    <sha2::Sha256 as sha2::Digest>::digest(data).to_vec()
}

/// The URL-safe base64 alphabet, in the order of the 6-bit values it stands for.
pub open spec fn base64_url_alphabet() -> Seq<char> {
    seq![
        'A', 'B', 'C', 'D', 'E', 'F', 'G', 'H', 'I', 'J', 'K', 'L', 'M', 'N', 'O', 'P', 'Q', 'R',
        'S', 'T', 'U', 'V', 'W', 'X', 'Y', 'Z', 'a', 'b', 'c', 'd', 'e', 'f', 'g', 'h', 'i', 'j',
        'k', 'l', 'm', 'n', 'o', 'p', 'q', 'r', 's', 't', 'u', 'v', 'w', 'x', 'y', 'z', '0', '1',
        '2', '3', '4', '5', '6', '7', '8', '9', '-', '_',
    ]
}

/// The character of a 6-bit value.
pub open spec fn base64_url_char(v: nat) -> char {
    base64_url_alphabet()[v as int]
}

/// The URL-safe base64 encoding of some bytes, without padding: each group of three bytes (24
/// bits) becomes four characters of six bits each; a last group of one or two bytes is filled
/// with zero bits to 12 or 18 bits and becomes two or three characters.
pub open spec fn base64_url(data: Seq<u8>) -> Seq<char>
    decreases data.len(),
{
    if data.len() == 0 {
        Seq::empty()
    } else if data.len() == 1 {
        let n = data[0] as nat;
        seq![base64_url_char(n / 4), base64_url_char((n % 4) * 16)]
    } else if data.len() == 2 {
        let n = data[0] as nat * 256 + data[1] as nat;
        seq![base64_url_char(n / 1024), base64_url_char((n / 16) % 64), base64_url_char((n % 16) * 4)]
    } else {
        let n = data[0] as nat * 65536 + data[1] as nat * 256 + data[2] as nat;
        seq![
            base64_url_char(n / 262144),
            base64_url_char((n / 4096) % 64),
            base64_url_char((n / 64) % 64),
            base64_url_char(n % 64),
        ] + base64_url(data.skip(3))
    }
}

/// The length of an unpadded base64 encoding of `n` bytes.
pub open spec fn base64_unpadded_len(n: nat) -> nat {
    4 * (n / 3) + if n % 3 == 0 {
        0
    } else {
        n % 3 + 1
    }
}

/// The URL-safe base64 alphabet: ASCII letters, digits, `-` and `_`.
pub open spec fn is_base64_url_char(c: char) -> bool {
    ||| 'a' <= c <= 'z'
    ||| 'A' <= c <= 'Z'
    ||| '0' <= c <= '9'
    ||| c == '-'
    ||| c == '_'
}

/// Every character of the alphabet is a URL-safe base64 character.
proof fn lemma_base64_url_char(v: nat)
    requires
        v < 64,
    ensures
        is_base64_url_char(base64_url_char(v)),
{
    assert forall|i: int| 0 <= i < 64 implies is_base64_url_char(#[trigger] base64_url_alphabet()[i]) by {}
}

/// The unpadded encoding of `n` bytes has `base64_unpadded_len(n)` characters, all of the
/// URL-safe base64 alphabet.
pub proof fn lemma_base64_url_shape(data: Seq<u8>)
    ensures
        base64_url(data).len() == base64_unpadded_len(data.len()),
        forall|i: int|
            0 <= i < base64_url(data).len() ==> is_base64_url_char(#[trigger] base64_url(data)[i]),
    decreases data.len(),
{
    if data.len() == 0 {
    } else if data.len() == 1 {
        let n = data[0] as nat;
        lemma_base64_url_char(n / 4);
        lemma_base64_url_char((n % 4) * 16);
    } else if data.len() == 2 {
        let n = data[0] as nat * 256 + data[1] as nat;
        lemma_base64_url_char(n / 1024);
        lemma_base64_url_char((n / 16) % 64);
        lemma_base64_url_char((n % 16) * 4);
    } else {
        let n = data[0] as nat * 65536 + data[1] as nat * 256 + data[2] as nat;
        lemma_base64_url_char(n / 262144);
        lemma_base64_url_char((n / 4096) % 64);
        lemma_base64_url_char((n / 64) % 64);
        lemma_base64_url_char(n % 64);
        lemma_base64_url_shape(data.skip(3));
        let head = seq![
            base64_url_char(n / 262144),
            base64_url_char((n / 4096) % 64),
            base64_url_char((n / 64) % 64),
            base64_url_char(n % 64),
        ];
        let rest = base64_url(data.skip(3));
        assert(base64_url(data) == head + rest);
        assert forall|i: int| 0 <= i < (head + rest).len() implies is_base64_url_char(
            #[trigger] (head + rest)[i],
        ) by {
            if i >= 4 {
                assert((head + rest)[i] == rest[i - 4]);
            }
        }
    }
}

/// Calls `Engine::encode` of `base64::engine::general_purpose::URL_SAFE_NO_PAD`: the unpadded
/// URL-safe base64 encoding (`base64_url`). The crate panics when the encoded length overflows
/// `usize`, which `requires` rules out.
#[verifier::external_body]
fn base64_url_encode(data: &[u8]) -> (r: String)
    requires
        data@.len() < usize::MAX / 4,
    ensures
        r@ == base64_url(data@),
{
    base64::Engine::encode(&base64::engine::general_purpose::URL_SAFE_NO_PAD, data)
}

/// The bytes whose unpadded URL-safe base64 encoding is `data`, or `None` where `data` is the
/// encoding of no bytes. The encoding is one-to-one, so those bytes are unique.
pub open spec fn base64_url_decoded(data: Seq<u8>) -> Option<Seq<u8>> {
    if exists|b: Seq<u8>| vstd::utf8::encode_utf8(base64_url(b)) == data {
        Some(choose|b: Seq<u8>| vstd::utf8::encode_utf8(base64_url(b)) == data)
    } else {
        None
    }
}

/// Calls `Engine::decode` of `base64::engine::general_purpose::URL_SAFE_NO_PAD`; a decode
/// error becomes `None`. That engine refuses padding and non-zero trailing bits, so it accepts
/// exactly the canonical unpadded encodings and gives back the bytes they encode
/// (`base64_url_decoded`).
#[verifier::external_body]
fn base64_url_decode(data: &[u8]) -> (r: Option<Vec<u8>>)
    ensures
        match r {
            Some(v) => base64_url_decoded(data@) == Some(v@),
            None => base64_url_decoded(data@) is None,
        },
{
    base64::Engine::decode(&base64::engine::general_purpose::URL_SAFE_NO_PAD, data).ok()
}

/// `serde_json`'s JSON value type.
#[verifier::external_type_specification]
#[verifier::external_body]
pub struct ExJsonValue(serde_json::Value);

/// Whether `serde_json` reads some bytes as one JSON value.
pub uninterp spec fn json_accepts(data: Seq<u8>) -> bool;

/// The JSON value that `serde_json` reads from some bytes (meaningful where `json_accepts`).
pub uninterp spec fn json_value(data: Seq<u8>) -> serde_json::Value;

/// Calls `serde_json::from_slice` for a `serde_json::Value`; a parse error becomes `None`.
/// Whether it succeeds is named `json_accepts`, and the value it reads is named `json_value`:
/// parsing is deterministic, so the same bytes give the same value. What the value holds is not
/// written out, since the value type is opaque here.
#[verifier::external_body]
fn parse_json(data: &[u8]) -> (r: Option<serde_json::Value>)
    ensures
        r is Some == json_accepts(data@),
        r matches Some(v) ==> v == json_value(data@),
{
    serde_json::from_slice::<serde_json::Value>(data).ok()
}

/// Calls `rand::Rng::gen_range(0..bound)` on the thread-local generator: a random index below
/// `bound`. The crate panics on an empty range, which `requires` rules out. Which index comes
/// out is chance, so only its range is stated.
#[verifier::external_body]
fn random_below(bound: usize) -> (r: usize)
    requires
        bound > 0,
    ensures
        r < bound,
{
    rand::Rng::gen_range(&mut rand::thread_rng(), 0..bound)
}

// ---------------------------------------------------------------------------------------------
// PKCE and state
// ---------------------------------------------------------------------------------------------

/// `s` has length `len` and holds only characters of `alphabet`.
pub open spec fn drawn_from(s: Seq<char>, len: nat, alphabet: Seq<char>) -> bool {
    &&& s.len() == len
    &&& forall|i: int| 0 <= i < s.len() ==> alphabet.contains(#[trigger] s[i])
}

/// A random string of `len` characters, each drawn from `alphabet`.
pub fn random_string(len: usize, alphabet: &str) -> (r: String)
    requires
        alphabet@.len() > 0,
    ensures
        drawn_from(r@, len as nat, alphabet@),
{
    let chars = chars_of(alphabet);
    let mut r = String::new();
    let mut i: usize = 0;
    while i < len
        invariant
            i <= len,
            chars@ == alphabet@,
            chars@.len() > 0,
            drawn_from(r@, i as nat, alphabet@),
        decreases len - i,
    {
        let k = random_below(chars.len());
        let c = chars[k];
        assert(alphabet@.contains(c)) by {
            assert(alphabet@[k as int] == c);
        }
        r.push(c);
        i += 1;
    }
    r
}

/// A valid state or nonce: `STATE_LENGTH` ASCII letters.
pub open spec fn is_state(s: Seq<char>) -> bool {
    drawn_from(s, STATE_LENGTH as nat, STATE_CHARS@)
}

/// Generates a random state (or nonce) used to correlate an authorize request with its redirect.
pub fn generate_state() -> (r: String)
    ensures
        is_state(r@),
{
    proof {
        reveal_strlit("ABCDEFGHIJKLMNOPQRSTUVWXYZabcdefghijklmnopqrstuvwxyz");
    }
    random_string(STATE_LENGTH, STATE_CHARS)
}

/// The S256 PKCE challenge of a verifier: the unpadded URL-safe base64 of the SHA-256 of its
/// UTF-8 bytes.
pub open spec fn s256_challenge(verifier: Seq<char>) -> Seq<char> {
    base64_url(sha256(vstd::utf8::encode_utf8(verifier)))
}

/// The S256 challenge of `verifier`; it is 43 characters of the URL-safe base64 alphabet.
pub fn code_challenge_s256(verifier: &str) -> (r: String)
    ensures
        r@ == s256_challenge(verifier@),
        r@.len() == 43,
        forall|i: int| 0 <= i < r@.len() ==> is_base64_url_char(#[trigger] r@[i]),
{
    let digest = sha256_digest(verifier.as_bytes());
    proof {
        lemma_base64_url_shape(digest@);
    }
    base64_url_encode(digest.as_slice())
}

/// A PKCE verifier/challenge pair. Generate one fresh per login attempt.
pub struct Pkce {
    pub verifier: String,
    pub challenge: String,
}

impl Pkce {
    /// A well-formed pair: a verifier of `VERIFIER_LENGTH` characters of `VERIFIER_CHARS`, and
    /// its S256 challenge.
    pub open spec fn is_valid(&self) -> bool {
        &&& drawn_from(self.verifier@, VERIFIER_LENGTH as nat, VERIFIER_CHARS@)
        &&& self.challenge@ == s256_challenge(self.verifier@)
    }

    /// A fresh random verifier and its challenge.
    pub fn generate() -> (r: Pkce)
        ensures
            r.is_valid(),
            r.challenge@.len() == 43,
            forall|i: int|
                0 <= i < r.challenge@.len() ==> is_base64_url_char(#[trigger] r.challenge@[i]),
    {
        proof {
            reveal_strlit("ABCDEFGHIJKLMNOPQRSTUVWXYZabcdefghijklmnopqrstuvwxyz0123456789-._");
        }
        let verifier = random_string(VERIFIER_LENGTH, VERIFIER_CHARS);
        let challenge = code_challenge_s256(verifier.as_str());
        Pkce { verifier, challenge }
    }
}

// ---------------------------------------------------------------------------------------------
// Authorize URLs
// ---------------------------------------------------------------------------------------------

/// The first-leg ("login") authorize URL.
pub open spec fn login_url(redirect_uri: Seq<char>, state: Seq<char>, challenge: Seq<char>) -> Seq<
    char,
> {
    ACCOUNT_ORIGIN@ + ENDPOINT_AUTH@
        + "?auth_method=&login_type=&flow=launcher&response_type=code&client_id="@ + CLIENT_ID@
        + "&code_challenge_method=S256&prompt=login&scope="@ + percent_encoded(LOGIN_SCOPES@)
        + "&redirect_uri="@ + percent_encoded(redirect_uri) + "&code_challenge="@ + challenge
        + "&state="@ + state
}

/// The second-leg ("consent") authorize URL, with the first leg's `id_token` as a hint.
pub open spec fn consent_url(id_token: Seq<char>, state: Seq<char>, nonce: Seq<char>) -> Seq<char> {
    ACCOUNT_ORIGIN@ + ENDPOINT_AUTH@
        + "?prompt=consent&redirect_uri=http%3A%2F%2Flocalhost&response_type=id_token+code&client_id="@
        + CONSENT_CLIENT_ID@ + "&scope="@ + percent_encoded(CONSENT_SCOPES@) + "&id_token_hint="@
        + id_token + "&state="@ + state + "&nonce="@ + nonce
}

/// `t` occurs somewhere in `s`.
pub open spec fn has_text(s: Seq<char>, t: Seq<char>) -> bool {
    exists|k: int| crate::text::occurs_at(s, t, k)
}

/// The login URL asks for an authorization code alone (`response_type=code`), which the service
/// returns in the redirect's query string, read by `parse_redirect_url`; it goes to the authorize
/// endpoint, names the login client, asks for S256 PKCE with the given challenge, and ends with
/// the given state.
pub proof fn lemma_login_url_requests_code(
    redirect_uri: Seq<char>,
    state: Seq<char>,
    challenge: Seq<char>,
)
    ensures
        has_text(login_url(redirect_uri, state, challenge), "&response_type=code&"@),
        has_text(login_url(redirect_uri, state, challenge), "&client_id=com_jagex_auth_desktop_launcher&"@),
        has_text(login_url(redirect_uri, state, challenge), "&code_challenge_method=S256&"@),
        has_text(
            login_url(redirect_uri, state, challenge),
            "&code_challenge="@ + challenge + "&state="@ + state,
        ),
        login_url(redirect_uri, state, challenge).take(
            "https://account.jagex.com/oauth2/auth?"@.len() as int,
        ) == "https://account.jagex.com/oauth2/auth?"@,
{
    reveal_strlit("https://account.jagex.com");
    reveal_strlit("/oauth2/auth");
    reveal_strlit("?auth_method=&login_type=&flow=launcher&response_type=code&client_id=");
    reveal_strlit("com_jagex_auth_desktop_launcher");
    reveal_strlit("&code_challenge_method=S256&prompt=login&scope=");
    reveal_strlit("&response_type=code&");
    reveal_strlit("&client_id=com_jagex_auth_desktop_launcher&");
    reveal_strlit("&code_challenge_method=S256&");
    reveal_strlit("https://account.jagex.com/oauth2/auth?");
    let u = login_url(redirect_uri, state, challenge);
    let head = ACCOUNT_ORIGIN@ + ENDPOINT_AUTH@;
    let hl: int = head.len() as int;
    let q = "?auth_method=&login_type=&flow=launcher&response_type=code&client_id="@;
    let cm = "&code_challenge_method=S256&prompt=login&scope="@;
    let front = head + q + CLIENT_ID@ + cm;
    let tail = percent_encoded(LOGIN_SCOPES@) + "&redirect_uri="@ + percent_encoded(redirect_uri);
    let end = "&code_challenge="@ + challenge + "&state="@ + state;
    assert(u =~= front + tail + end);
    assert(u.subrange(hl + 39, hl + 59) =~= "&response_type=code&"@);
    assert(crate::text::occurs_at(u, "&response_type=code&"@, hl + 39));
    assert(u.subrange(hl + 58, hl + q.len() + CLIENT_ID@.len() + 1)
        =~= "&client_id=com_jagex_auth_desktop_launcher&"@);
    assert(crate::text::occurs_at(
        u,
        "&client_id=com_jagex_auth_desktop_launcher&"@,
        hl + 58,
    ));
    let p: int = hl + q.len() + CLIENT_ID@.len();
    assert(u.subrange(p, p + 28) =~= "&code_challenge_method=S256&"@);
    assert(crate::text::occurs_at(u, "&code_challenge_method=S256&"@, p));
    let e: int = (front.len() + tail.len()) as int;
    assert(u.subrange(e, e + end.len()) =~= end);
    assert(crate::text::occurs_at(u, end, e));
    assert(u.take("https://account.jagex.com/oauth2/auth?"@.len() as int)
        =~= "https://account.jagex.com/oauth2/auth?"@);
}

/// The consent URL asks for an id_token and a code (`response_type=id_token+code`), which the
/// service returns in the redirect's fragment, read by `parse_consent_redirect`; it names the
/// consent client and carries the id_token hint, state and nonce given.
pub proof fn lemma_consent_url_requests_token_and_code(
    id_token: Seq<char>,
    state: Seq<char>,
    nonce: Seq<char>,
)
    ensures
        has_text(consent_url(id_token, state, nonce), "&response_type=id_token+code&"@),
        has_text(
            consent_url(id_token, state, nonce),
            "&client_id=1fddee4e-b100-4f4e-b2b0-097f9088f9d2&"@,
        ),
        has_text(
            consent_url(id_token, state, nonce),
            "&id_token_hint="@ + id_token + "&state="@ + state + "&nonce="@ + nonce,
        ),
{
    reveal_strlit("https://account.jagex.com");
    reveal_strlit("/oauth2/auth");
    reveal_strlit(
        "?prompt=consent&redirect_uri=http%3A%2F%2Flocalhost&response_type=id_token+code&client_id=",
    );
    reveal_strlit("1fddee4e-b100-4f4e-b2b0-097f9088f9d2");
    reveal_strlit("&scope=");
    reveal_strlit("&response_type=id_token+code&");
    reveal_strlit("&client_id=1fddee4e-b100-4f4e-b2b0-097f9088f9d2&");
    let u = consent_url(id_token, state, nonce);
    let head = ACCOUNT_ORIGIN@ + ENDPOINT_AUTH@;
    let hl: int = head.len() as int;
    let q = "?prompt=consent&redirect_uri=http%3A%2F%2Flocalhost&response_type=id_token+code&client_id="@;
    let front = head + q + CONSENT_CLIENT_ID@ + "&scope="@ + percent_encoded(CONSENT_SCOPES@);
    let end = "&id_token_hint="@ + id_token + "&state="@ + state + "&nonce="@ + nonce;
    assert(u =~= front + end);
    let r: int = hl + 51;
    assert(u.subrange(r, r + 29) =~= "&response_type=id_token+code&"@);
    assert(crate::text::occurs_at(u, "&response_type=id_token+code&"@, r));
    let c: int = hl + 79;
    assert(u.subrange(c, c + 48) =~= "&client_id=1fddee4e-b100-4f4e-b2b0-097f9088f9d2&"@);
    assert(crate::text::occurs_at(u, "&client_id=1fddee4e-b100-4f4e-b2b0-097f9088f9d2&"@, c));
    assert(u.subrange(front.len() as int, front.len() + end.len() as int) =~= end);
    assert(crate::text::occurs_at(u, end, front.len() as int));
}

/// Builds the first-leg ("login") authorize URL.
pub fn build_login_url(redirect_uri: &str, state: &str, pkce: &Pkce) -> (r: String)
    ensures
        r@ == login_url(redirect_uri@, state@, pkce.challenge@),
{
    let scope = url_encode(LOGIN_SCOPES);
    let redirect = url_encode(redirect_uri);
    let mut s = String::new();
    s.append(ACCOUNT_ORIGIN);
    s.append(ENDPOINT_AUTH);
    s.append("?auth_method=&login_type=&flow=launcher&response_type=code&client_id=");
    s.append(CLIENT_ID);
    s.append("&code_challenge_method=S256&prompt=login&scope=");
    s.append(scope.as_str());
    s.append("&redirect_uri=");
    s.append(redirect.as_str());
    s.append("&code_challenge=");
    s.append(pkce.challenge.as_str());
    s.append("&state=");
    s.append(state);
    s
}

/// Builds the second-leg ("consent") authorize URL, using the `id_token` of the first exchange
/// as a hint so that the user is not asked to log in twice.
pub fn build_consent_url(id_token: &str, state: &str, nonce: &str) -> (r: String)
    ensures
        r@ == consent_url(id_token@, state@, nonce@),
{
    let scope = url_encode(CONSENT_SCOPES);
    let mut s = String::new();
    s.append(ACCOUNT_ORIGIN);
    s.append(ENDPOINT_AUTH);
    s.append(
        "?prompt=consent&redirect_uri=http%3A%2F%2Flocalhost&response_type=id_token+code&client_id=",
    );
    s.append(CONSENT_CLIENT_ID);
    s.append("&scope=");
    s.append(scope.as_str());
    s.append("&id_token_hint=");
    s.append(id_token);
    s.append("&state=");
    s.append(state);
    s.append("&nonce=");
    s.append(nonce);
    s
}


// ---------------------------------------------------------------------------------------------
// ID tokens
// ---------------------------------------------------------------------------------------------

/// The second `.`-separated part of a JWT (its claims body), if there is one.
pub open spec fn jwt_body(token: Seq<char>) -> Option<Seq<char>> {
    let parts = split_str(token, seq!['.']);
    if parts.len() >= 2 {
        Some(parts[1])
    } else {
        None
    }
}

/// The claims that a JWT body part holds: the JSON value of its unpadded URL-safe base64
/// decoding, or `None` where it is not base64 or the bytes are not one JSON value.
pub open spec fn payload_claims(body: Seq<char>) -> Option<serde_json::Value> {
    match base64_url_decoded(vstd::utf8::encode_utf8(body)) {
        Some(bytes) => if json_accepts(bytes) {
            Some(json_value(bytes))
        } else {
            None
        },
        None => None,
    }
}

/// The claims of an id_token: those of its second `.`-separated part, or `None` where it has no
/// such part or that part cannot be read.
pub open spec fn id_token_claims(token: Seq<char>) -> Option<serde_json::Value> {
    match jwt_body(token) {
        Some(body) => payload_claims(body),
        None => None,
    }
}

/// The claims are read from the body part alone: for a header `h` and a body `p` without `.`,
/// the tokens `h.p` and `h.p.s`, whatever the signature `s`, have the claims of `p`.
pub proof fn lemma_claims_from_body_only(h: Seq<char>, p: Seq<char>, s: Seq<char>)
    requires
        !h.contains('.'),
        !p.contains('.'),
    ensures
        id_token_claims(h + seq!['.'] + p + seq!['.'] + s) == payload_claims(p),
        id_token_claims(h + seq!['.'] + p) == payload_claims(p),
{
    let rest = p + seq!['.'] + s;
    assert(h + seq!['.'] + p + seq!['.'] + s =~= h + seq!['.'] + rest);
    lemma_split_at_first(h, rest, '.');
    lemma_split_at_first(p, s, '.');
    crate::text::lemma_split_str_len(s, seq!['.']);
    let tail = split_str(s, seq!['.']);
    assert((seq![h] + (seq![p] + tail))[1] == p);
    lemma_split_at_first(h, p, '.');
    lemma_split_without_separator(p, '.');
    assert((seq![h] + seq![p])[1] == p);
}

/// Decodes the (unverified) claims body of a JWT, e.g. to read `sub` out of an `id_token`.
/// The signature is not checked: this only reads claims from a token received directly from the
/// token endpoint over TLS.
pub fn decode_id_token_claims(token: &str) -> (r: Result<serde_json::Value, AuthError>)
    ensures
        match r {
            Ok(v) => id_token_claims(token@) == Some(v),
            Err(e) => id_token_claims(token@) is None && e == AuthError::InvalidIdToken,
        },
{
    let v = chars_of(token);
    let dot = vec!['.'];
    assert(dot@ =~= seq!['.']);
    let parts = split_str_exec(&v, &dot);
    if parts.len() < 2 {
        return Err(AuthError::InvalidIdToken);
    }
    assert(parts@[1]@ == parts.deep_view()[1]);
    let body = string_of_all(&parts[1]);
    let bytes = match base64_url_decode(body.as_str().as_bytes()) {
        Some(b) => b,
        None => return Err(AuthError::InvalidIdToken),
    };
    match parse_json(bytes.as_slice()) {
        Some(value) => Ok(value),
        None => Err(AuthError::InvalidIdToken),
    }
}

// ---------------------------------------------------------------------------------------------
// Token and session requests
// ---------------------------------------------------------------------------------------------

/// The token set returned by the token endpoint.
#[derive(Debug, Clone, PartialEq, Eq)]
pub struct TokenResponse {
    pub id_token: String,
    pub access_token: String,
    pub refresh_token: String,
    pub expires_in: i64,
}

/// The views of the name/value pairs of a form.
pub open spec fn form_view(form: Seq<(String, String)>) -> Seq<(Seq<char>, Seq<char>)> {
    Seq::new(form.len(), |i: int| (form[i].0@, form[i].1@))
}

fn field(name: &str, value: &str) -> (r: (String, String))
    ensures
        r.0@ == name@,
        r.1@ == value@,
{
    (String::from_str(name), String::from_str(value))
}

/// The URL of the token endpoint.
pub fn token_url() -> (r: String)
    ensures
        r@ == ACCOUNT_ORIGIN@ + ENDPOINT_TOKEN@,
{
    let mut s = String::new();
    s.append(ACCOUNT_ORIGIN);
    s.append(ENDPOINT_TOKEN);
    s
}

/// The URL of the game-session endpoint.
pub fn session_url() -> (r: String)
    ensures
        r@ == AUTH_ORIGIN@ + ENDPOINT_SESSION@,
{
    let mut s = String::new();
    s.append(AUTH_ORIGIN);
    s.append(ENDPOINT_SESSION);
    s
}

/// The form that exchanges a first-leg authorization `code` (with the PKCE verifier) for tokens.
pub fn authorization_code_form(code: &str, verifier: &str, redirect_uri: &str) -> (r: Vec<
    (String, String),
>)
    ensures
        form_view(r@) == seq![
            ("grant_type"@, "authorization_code"@),
            ("client_id"@, CLIENT_ID@),
            ("code"@, code@),
            ("code_verifier"@, verifier@),
            ("redirect_uri"@, redirect_uri@),
        ],
{
    let mut r: Vec<(String, String)> = Vec::new();
    r.push(field("grant_type", "authorization_code"));
    r.push(field("client_id", CLIENT_ID));
    r.push(field("code", code));
    r.push(field("code_verifier", verifier));
    r.push(field("redirect_uri", redirect_uri));
    assert(form_view(r@) =~= seq![
        ("grant_type"@, "authorization_code"@),
        ("client_id"@, CLIENT_ID@),
        ("code"@, code@),
        ("code_verifier"@, verifier@),
        ("redirect_uri"@, redirect_uri@),
    ]);
    r
}

/// The form that uses a stored `refresh_token` to mint a fresh token set.
pub fn refresh_token_form(refresh_token: &str) -> (r: Vec<(String, String)>)
    ensures
        form_view(r@) == seq![
            ("grant_type"@, "refresh_token"@),
            ("client_id"@, CLIENT_ID@),
            ("refresh_token"@, refresh_token@),
        ],
{
    let mut r: Vec<(String, String)> = Vec::new();
    r.push(field("grant_type", "refresh_token"));
    r.push(field("client_id", CLIENT_ID));
    r.push(field("refresh_token", refresh_token));
    assert(form_view(r@) =~= seq![
        ("grant_type"@, "refresh_token"@),
        ("client_id"@, CLIENT_ID@),
        ("refresh_token"@, refresh_token@),
    ]);
    r
}

// ---------------------------------------------------------------------------------------------
// The login flow
// ---------------------------------------------------------------------------------------------

/// Errors from driving a [`LoginFlow`]: OAuth errors, character-listing errors, or a step
/// taken out of order.
#[derive(Debug, Clone, PartialEq, Eq)]
pub enum LoginFlowError {
    Auth(AuthError),
    Character(CharacterError),
    /// The method is not valid for the flow's current step.
    WrongStep,
}

impl LoginFlowError {
    /// The text that describes the failure: that of the OAuth or character-listing failure it
    /// wraps, or that the step was taken out of order.
    pub fn message(&self) -> (r: String)
        ensures
            r@ == match self {
                LoginFlowError::Auth(e) => auth_error_text(*e),
                LoginFlowError::Character(e) => crate::characters::character_error_text(*e),
                LoginFlowError::WrongStep => "this method isn't valid for the login flow's current step"@,
            },
    {
        match self {
            LoginFlowError::Auth(e) => e.message(),
            LoginFlowError::Character(e) => e.message(),
            LoginFlowError::WrongStep => String::from_str(
                "this method isn't valid for the login flow's current step",
            ),
        }
    }
}

/// The two-leg login as a state machine. Each step is driven by the user pasting back the URL
/// their browser was redirected to; neither redirect can be captured automatically. It has no
/// `Debug`: its steps hold secrets; see [`LoginFlow::describe`].
pub enum LoginFlow {
    /// Waiting for the user to log in and paste back the first redirect URL.
    AwaitingLogin { pkce: Pkce, state: String },
    /// Waiting for the user to consent and paste back the second redirect URL.
    AwaitingConsent { refresh_token: String, consent_state: String },
}

/// The result of a completed [`LoginFlow`]: the refresh token to persist for the profile, the
/// game session, and the characters to choose from.
pub struct LoginOutcome {
    pub refresh_token: String,
    pub session_id: String,
    pub characters: Vec<Character>,
}

/// What the token exchange of the login leg needs: the redirect's code and the PKCE verifier.
#[derive(Debug, Clone, PartialEq, Eq)]
pub struct CodeExchange {
    pub code: String,
    pub verifier: String,
}

/// What the consent leg yields: the refresh token kept from the login leg and the consent
/// redirect's `code` and `id_token`.
#[derive(Debug, Clone, PartialEq, Eq)]
pub struct ConsentStep {
    pub refresh_token: String,
    pub consent: ConsentRedirect,
}

impl LoginFlow {
    /// Starts a new login attempt: a fresh PKCE pair and state, and the login URL to open in the
    /// user's browser, which redirects to [`LOGIN_REDIRECT_URI`].
    pub fn start() -> (r: (LoginFlow, String))
        ensures
            match r.0 {
                LoginFlow::AwaitingLogin { pkce, state } => {
                    &&& pkce.is_valid()
                    &&& is_state(state@)
                    &&& r.1@ == login_url(LOGIN_REDIRECT_URI@, state@, pkce.challenge@)
                },
                LoginFlow::AwaitingConsent { .. } => false,
            },
    {
        let pkce = Pkce::generate();
        let state = generate_state();
        let url = build_login_url(LOGIN_REDIRECT_URI, state.as_str(), &pkce);
        (LoginFlow::AwaitingLogin { pkce, state }, url)
    }

    /// The decision of the login leg, once the user has pasted back the first redirect URL:
    /// out of step it is `WrongStep`; otherwise the URL must carry this attempt's state and a
    /// code, and the code exchange is what comes next. Nothing here touches the network.
    pub fn login_exchange(self, redirect_url: &str) -> (r: Result<CodeExchange, LoginFlowError>)
        ensures
            match self {
                LoginFlow::AwaitingConsent { .. } => r == Err::<CodeExchange, LoginFlowError>(
                    LoginFlowError::WrongStep,
                ),
                LoginFlow::AwaitingLogin { pkce, state } => match (
                    r,
                    login_redirect(redirect_url@, state@),
                ) {
                    (Ok(x), Ok(code)) => x.code@ == code && x.verifier@ == pkce.verifier@,
                    (Err(e), Err(f)) => e == LoginFlowError::Auth(f),
                    _ => false,
                },
            },
    {
        match self {
            LoginFlow::AwaitingConsent { .. } => Err(LoginFlowError::WrongStep),
            LoginFlow::AwaitingLogin { pkce, state } => {
                match parse_redirect_url(redirect_url, state.as_str()) {
                    Ok(rc) => Ok(CodeExchange { code: rc.code, verifier: pkce.verifier }),
                    Err(e) => Err(LoginFlowError::Auth(e)),
                }
            },
        }
    }

    /// The step after a successful code exchange: a fresh consent state and nonce, the consent
    /// URL built from the exchange's `id_token`, and the flow now waiting for consent with the
    /// exchange's refresh token.
    pub fn after_code_exchange(tokens: &TokenResponse) -> (r: (LoginFlow, String))
        ensures
            match r.0 {
                LoginFlow::AwaitingConsent { refresh_token, consent_state } => {
                    &&& refresh_token@ == tokens.refresh_token@
                    &&& is_state(consent_state@)
                    &&& exists|nonce: Seq<char>|
                        is_state(nonce) && r.1@ == consent_url(
                            tokens.id_token@,
                            consent_state@,
                            nonce,
                        )
                },
                LoginFlow::AwaitingLogin { .. } => false,
            },
    {
        let consent_state = generate_state();
        let nonce = generate_state();
        let url = build_consent_url(tokens.id_token.as_str(), consent_state.as_str(), nonce.as_str());
        assert(is_state(nonce@) && url@ == consent_url(tokens.id_token@, consent_state@, nonce@));
        (
            LoginFlow::AwaitingConsent {
                refresh_token: tokens.refresh_token.clone(),
                consent_state,
            },
            url,
        )
    }

    /// The decision of the consent leg, once the user has pasted back the second redirect URL:
    /// out of step it is `WrongStep`; otherwise the URL's fragment must carry the consent state,
    /// a code and an id_token, which then goes to the game-session endpoint.
    pub fn consent_exchange(self, redirect_url: &str) -> (r: Result<ConsentStep, LoginFlowError>)
        ensures
            match self {
                LoginFlow::AwaitingLogin { .. } => r == Err::<ConsentStep, LoginFlowError>(
                    LoginFlowError::WrongStep,
                ),
                LoginFlow::AwaitingConsent { refresh_token, consent_state } => match (
                    r,
                    consent_redirect(redirect_url@, consent_state@),
                ) {
                    (Ok(x), Ok((code, id_token))) => {
                        &&& x.refresh_token@ == refresh_token@
                        &&& x.consent.code@ == code
                        &&& x.consent.id_token@ == id_token
                    },
                    (Err(e), Err(f)) => e == LoginFlowError::Auth(f),
                    _ => false,
                },
            },
    {
        match self {
            LoginFlow::AwaitingLogin { .. } => Err(LoginFlowError::WrongStep),
            LoginFlow::AwaitingConsent { refresh_token, consent_state } => {
                match parse_consent_redirect(redirect_url, consent_state.as_str()) {
                    Ok(consent) => Ok(ConsentStep { refresh_token, consent }),
                    Err(e) => Err(LoginFlowError::Auth(e)),
                }
            },
        }
    }

    /// The outcome of the completed flow, once the consent step's `id_token` has opened the game
    /// session `session_id` and its characters were listed: the refresh token kept from the login
    /// leg, that session and those characters.
    pub fn after_consent(step: ConsentStep, session_id: String, characters: Vec<Character>) -> (r:
        LoginOutcome)
        ensures
            r.refresh_token@ == step.refresh_token@,
            r.session_id@ == session_id@,
            r.characters@ == characters@,
    {
        LoginOutcome { refresh_token: step.refresh_token, session_id, characters }
    }

    /// A description of the flow's step that leaves out its secrets (the refresh token is a
    /// live credential).
    pub fn describe(&self) -> (r: String)
        ensures
            r@ == match self {
                LoginFlow::AwaitingLogin { .. } => "LoginFlow::AwaitingLogin"@,
                LoginFlow::AwaitingConsent { .. } => "LoginFlow::AwaitingConsent(..)"@,
            },
    {
        match self {
            LoginFlow::AwaitingLogin { .. } => String::from_str("LoginFlow::AwaitingLogin"),
            LoginFlow::AwaitingConsent { .. } => String::from_str("LoginFlow::AwaitingConsent(..)"),
        }
    }
}

} // verus!
