//! Signing in to a ChatGPT subscription with a browser: OAuth with a proof key.

use crate::form::{form_body, form_fields};
use crate::percent::{percent_decode, percent_decoded, percent_encode, percent_encoded};
use crate::text;
use crate::text::said;
use base64::engine::general_purpose::URL_SAFE_NO_PAD;
use base64::Engine;
use rand::RngCore;
use sha2::Digest;
use vstd::prelude::*;
use vstd::utf8::{encode_utf8, valid_utf8};

verus! {

/// Where the user is asked to sign in.
pub const OPENAI_AUTHORIZE_URL: &'static str = "https://auth.openai.com/oauth/authorize";

/// Where a code is exchanged for tokens.
pub const OPENAI_TOKEN_URL: &'static str = "https://auth.openai.com/oauth/token";

/// What this program is known as.
pub const CLIENT_ID: &'static str = "app_EMoamEEZ73f0CkXaXp7hrann";

/// Where the browser is sent once the user has signed in.
pub const REDIRECT_URI: &'static str = "http://localhost:1455/auth/callback";

/// The SHA-256 digest of bytes, as sha2 computes it.
pub uninterp spec fn sha256(bytes: Seq<u8>) -> Seq<u8>;

/// The bytes written in URL-safe base64 without padding, as base64 writes it.
pub uninterp spec fn base64url(bytes: Seq<u8>) -> Seq<char>;

/// Digests bytes by `sha2::Sha256`. The result is a function of the bytes alone.
#[verifier::external_body]
fn digest(bytes: &[u8]) -> (digest: Vec<u8>)
    ensures
        digest@ == sha256(bytes@),
        digest@.len() == 32,
{
    let mut hasher = sha2::Sha256::new();
    hasher.update(bytes);
    hasher.finalize().to_vec()
}

/// Writes bytes by the `encode` of `base64`'s `URL_SAFE_NO_PAD` engine. The result is a function
/// of the bytes alone. The length is kept far below where writing them would take more memory
/// than there can be.
#[verifier::external_body]
fn encode_base64url(bytes: &Vec<u8>) -> (text: String)
    requires
        bytes@.len() <= 0x1000_0000,
    ensures
        text@ == base64url(bytes@),
{
    URL_SAFE_NO_PAD.encode(bytes)
}

/// Draws bytes from `rand`'s generator by `RngCore::fill_bytes`. All that holds of every draw is
/// how many there are.
#[verifier::external_body]
fn random_bytes(count: usize) -> (bytes: Vec<u8>)
    requires
        count <= 0x1000_0000,
    ensures
        bytes@.len() == count,
{
    let mut bytes = vec![0u8; count];
    rand::rng().fill_bytes(&mut bytes);
    bytes
}

/// The digit of a number below sixteen, with a small letter from ten on.
pub open spec fn lower_hex_digit(n: u8) -> char {
    if n < 10 {
        (('0' as u8) + n) as char
    } else {
        (('a' as u8) + n - 10) as char
    }
}

/// Bytes in hexadecimal digits, two for each.
pub open spec fn lower_hex(bytes: Seq<u8>) -> Seq<char>
    decreases bytes.len(),
{
    if bytes.len() == 0 {
        Seq::empty()
    } else {
        lower_hex(bytes.drop_last()) + seq![
            lower_hex_digit(bytes.last() / 16),
            lower_hex_digit(bytes.last() % 16),
        ]
    }
}

fn lower_hex_char(n: u8) -> (c: char)
    requires
        n < 16,
    ensures
        c == lower_hex_digit(n),
{
    if n < 10 {
        (('0' as u8) + n) as char
    } else {
        (('a' as u8) + (n - 10)) as char
    }
}

fn lower_hex_text(bytes: &Vec<u8>) -> (text: String)
    ensures
        text@ == lower_hex(bytes@),
{
    let mut text = String::new();
    let mut at: usize = 0;
    assert(bytes@.take(0) =~= Seq::empty());
    while at < bytes.len()
        invariant
            at <= bytes@.len(),
            text@ == lower_hex(bytes@.take(at as int)),
        decreases bytes@.len() - at,
    {
        let ghost before = text@;
        let byte: u8 = bytes[at];
        assert(bytes@.take(at + 1).drop_last() =~= bytes@.take(at as int));
        text::push_char(&mut text, lower_hex_char(byte / 16));
        text::push_char(&mut text, lower_hex_char(byte % 16));
        assert(text@ =~= before + seq![lower_hex_digit(byte / 16), lower_hex_digit(byte % 16)]);
        at = at + 1;
    }
    assert(bytes@.take(at as int) =~= bytes@);
    text
}

/// What one attempt to sign in goes by.
#[derive(Debug, PartialEq, Eq)]
pub struct OAuthSession {
    /// The secret that the token service is shown at the end.
    pub verifier: String,
    /// What the browser has to bring back, so that no other page can end the attempt.
    pub state: String,
    /// Where the user is asked to sign in.
    pub auth_url: String,
}

/// The digest of the secret, which the service is shown at the beginning.
pub open spec fn challenge_for(verifier: Seq<char>) -> Seq<char> {
    base64url(sha256(encode_utf8(verifier)))
}

/// Where the user is asked to sign in.
pub open spec fn authorize_url(challenge: Seq<char>, state: Seq<char>) -> Seq<char> {
    OPENAI_AUTHORIZE_URL@ + "?client_id="@ + CLIENT_ID@ + "&redirect_uri="@ + percent_encoded(
        encode_utf8(REDIRECT_URI@),
    ) + "&scope=openid+profile+email+offline_access&response_type=code&code_challenge="@ + challenge
        + "&code_challenge_method=S256&state="@ + state
        + "&codex_cli_simplified_flow=true&originator=zed"@
}

impl OAuthSession {
    /// Whether the attempt was made of the given random bytes.
    pub open spec fn is_made_of(self, verifier_bytes: Seq<u8>, state_bytes: Seq<u8>) -> bool {
        &&& self.verifier@ == base64url(verifier_bytes)
        &&& self.state@ == lower_hex(state_bytes)
        &&& self.auth_url@ == authorize_url(challenge_for(self.verifier@), self.state@)
    }
}

fn authorize_url_text(challenge: &str, state: &str) -> (url: String)
    ensures
        url@ == authorize_url(challenge@, state@),
{
    let mut url = OPENAI_AUTHORIZE_URL.to_owned();
    url.append("?client_id=");
    url.append(CLIENT_ID);
    url.append("&redirect_uri=");
    url.append(percent_encode(REDIRECT_URI).as_str());
    url.append("&scope=openid+profile+email+offline_access&response_type=code&code_challenge=");
    url.append(challenge);
    url.append("&code_challenge_method=S256&state=");
    url.append(state);
    url.append("&codex_cli_simplified_flow=true&originator=zed");
    url
}

/// An attempt to sign in, made of the given random bytes.
pub fn session_from_random(verifier_bytes: &Vec<u8>, state_bytes: &Vec<u8>) -> (session:
    OAuthSession)
    requires
        verifier_bytes@.len() <= 0x1000_0000,
    ensures
        session.is_made_of(verifier_bytes@, state_bytes@),
{
    let verifier = encode_base64url(verifier_bytes);
    let challenge = encode_base64url(&digest(verifier.as_str().as_bytes()));
    let state = lower_hex_text(state_bytes);
    let auth_url = authorize_url_text(challenge.as_str(), state.as_str());
    OAuthSession { verifier, state, auth_url }
}

/// A new attempt to sign in, with a secret made of thirty-two random bytes and a mark made of
/// sixteen.
pub fn start_oauth_flow() -> (session: OAuthSession)
    ensures
        exists|verifier_bytes: Seq<u8>, state_bytes: Seq<u8>|
            verifier_bytes.len() == 32 && state_bytes.len() == 16
                && #[trigger] session.is_made_of(verifier_bytes, state_bytes),
        session.state@.len() == 32,
        session.auth_url@ == authorize_url(challenge_for(session.verifier@), session.state@),
{
    let verifier_bytes = random_bytes(32);
    let state_bytes = random_bytes(16);
    let session = session_from_random(&verifier_bytes, &state_bytes);
    assert(session.is_made_of(verifier_bytes@, state_bytes@));
    proof {
        lower_hex_length(state_bytes@);
    }
    session
}

proof fn lower_hex_length(bytes: Seq<u8>)
    ensures
        lower_hex(bytes).len() == 2 * bytes.len(),
    decreases bytes.len(),
{
    if bytes.len() > 0 {
        lower_hex_length(bytes.drop_last());
    }
}

/// Different random bytes give different marks, so that a mark is as hard to guess as they are.
pub proof fn lower_hex_is_injective(first: Seq<u8>, second: Seq<u8>)
    requires
        lower_hex(first) == lower_hex(second),
    ensures
        first == second,
    decreases first.len(),
{
    lower_hex_length(first);
    lower_hex_length(second);
    if first.len() > 0 {
        let a = lower_hex(first);
        let b = lower_hex(second);
        let front = lower_hex(first.drop_last());
        let other = lower_hex(second.drop_last());
        lower_hex_length(first.drop_last());
        lower_hex_length(second.drop_last());
        assert(front =~= a.take(a.len() - 2));
        assert(other =~= b.take(b.len() - 2));
        lower_hex_is_injective(first.drop_last(), second.drop_last());
        assert(a[a.len() - 2] == lower_hex_digit(first.last() / 16));
        assert(b[b.len() - 2] == lower_hex_digit(second.last() / 16));
        assert(a[a.len() - 1] == lower_hex_digit(first.last() % 16));
        assert(b[b.len() - 1] == lower_hex_digit(second.last() % 16));
        assert(first.last() / 16 == second.last() / 16);
        assert(first.last() % 16 == second.last() % 16);
        assert(first.last() == second.last());
        assert(first =~= first.drop_last().push(first.last()));
        assert(second =~= second.drop_last().push(second.last()));
    } else {
        assert(first =~= second);
    }
}

/// Why the browser's request did not end the attempt to sign in.
#[derive(Debug, PartialEq, Eq)]
pub enum CallbackError {
    /// The request is not well formed UTF-8, for the given reason.
    NotText(String),
    InvalidRequest,
    MissingState,
    StateMismatch,
    MissingCode,
}

impl CallbackError {
    /// The sentence that describes the error.
    pub open spec fn text(self) -> Seq<char> {
        match self {
            CallbackError::NotText(reason) => reason@,
            CallbackError::InvalidRequest => "Invalid HTTP request from browser"@,
            CallbackError::MissingState => "Missing state in OAuth callback"@,
            CallbackError::StateMismatch => "OAuth state mismatch"@,
            CallbackError::MissingCode => "Missing authorization code in OAuth callback"@,
        }
    }

    /// The sentence that describes the error.
    pub fn message(&self) -> (message: String)
        ensures
            message@ == self.text(),
    {
        match self {
            CallbackError::NotText(reason) => reason.clone(),
            CallbackError::InvalidRequest => "Invalid HTTP request from browser".to_owned(),
            CallbackError::MissingState => "Missing state in OAuth callback".to_owned(),
            CallbackError::StateMismatch => "OAuth state mismatch".to_owned(),
            CallbackError::MissingCode =>
                "Missing authorization code in OAuth callback".to_owned(),
        }
    }

    /// Whether the browser is shown the closing page in spite of the error: it is wherever an
    /// address could be read from its request.
    pub fn is_answered(&self) -> (answers: bool)
        ensures
            answers == !(*self is NotText || *self is InvalidRequest),
    {
        match self {
            CallbackError::NotText(_) => false,
            CallbackError::InvalidRequest => false,
            _ => true,
        }
    }
}

/// The pieces that hold something.
pub open spec fn words(pieces: Seq<Seq<char>>) -> Seq<Seq<char>>
    decreases pieces.len(),
{
    if pieces.len() == 0 {
        Seq::empty()
    } else if pieces.last().len() > 0 {
        words(pieces.drop_last()).push(pieces.last())
    } else {
        words(pieces.drop_last())
    }
}

/// The address that a request asks for: the second word of its first line.
pub open spec fn request_path(request: Seq<char>) -> Option<Seq<char>> {
    let line = text::split(request, text::is_char('\n'))[0];
    let found = words(text::split(line, text::is_white_space()));
    if found.len() > 1 {
        Some(found[1])
    } else {
        None
    }
}

/// The part of an address between its first question mark and the next.
pub open spec fn query_of(path: Seq<char>) -> Seq<char> {
    let pieces = text::split(path, text::is_char('?'));
    if pieces.len() > 1 {
        pieces[1]
    } else {
        Seq::empty()
    }
}

/// The value that a part of a query gives to the name, which ends with the equals sign.
pub open spec fn value_in(part: Seq<char>, name: Seq<char>) -> Option<Seq<char>> {
    if text::begins_with(part, name) {
        Some(percent_decoded(encode_utf8(part.skip(name.len() as int))))
    } else {
        None
    }
}

/// The value that the last part of a query to do so gives to the name.
pub open spec fn last_value(parts: Seq<Seq<char>>, name: Seq<char>) -> Option<Seq<char>>
    decreases parts.len(),
{
    if parts.len() == 0 {
        None
    } else if value_in(parts.last(), name) is Some {
        value_in(parts.last(), name)
    } else {
        last_value(parts.drop_last(), name)
    }
}

/// What the browser brings back: the code, or why there is none.
pub open spec fn callback_code(
    code: Option<Seq<char>>,
    state: Option<Seq<char>>,
    expected_state: Seq<char>,
) -> Result<Seq<char>, CallbackError> {
    match state {
        None => Err(CallbackError::MissingState),
        Some(state) => if state != expected_state {
            Err(CallbackError::StateMismatch)
        } else {
            match code {
                None => Err(CallbackError::MissingCode),
                Some(code) => Ok(code),
            }
        },
    }
}

/// What a request of the browser brings back.
pub open spec fn callback_result(request: Seq<char>, expected_state: Seq<char>) -> Result<
    Seq<char>,
    CallbackError,
> {
    match request_path(request) {
        None => Err(CallbackError::InvalidRequest),
        Some(path) => {
            let parts = text::split(query_of(path), text::is_char('&'));
            callback_code(
                last_value(parts, "code="@),
                last_value(parts, "state="@),
                expected_state,
            )
        },
    }
}

/// What a result with a text says.
pub open spec fn said_or(result: Result<String, CallbackError>) -> Result<
    Seq<char>,
    CallbackError,
> {
    match result {
        Ok(text) => Ok(text@),
        Err(error) => Err(error),
    }
}

fn second_word(pieces: &Vec<String>) -> (word: Option<String>)
    ensures
        said(word) == (if words(text::texts(pieces@)).len() > 1 {
            Some(words(text::texts(pieces@))[1])
        } else {
            None
        }),
{
    let ghost all = text::texts(pieces@);
    let mut count: usize = 0;
    let mut word: Option<String> = None;
    let mut at: usize = 0;
    assert(all.take(0) =~= Seq::empty());
    while at < pieces.len()
        invariant
            at <= pieces@.len(),
            count <= at,
            all == text::texts(pieces@),
            count == words(all.take(at as int)).len(),
            said(word) == (if count > 1 {
                Some(words(all.take(at as int))[1])
            } else {
                None
            }),
        decreases pieces@.len() - at,
    {
        assert(all.take(at + 1).drop_last() =~= all.take(at as int));
        assert(all.take(at + 1).last() == pieces@[at as int]@);
        if !pieces[at].as_str().is_empty() {
            if count == 1 {
                word = Some(pieces[at].clone());
            }
            count = count + 1;
        }
        at = at + 1;
    }
    assert(all.take(at as int) =~= all);
    word
}

fn find_value(parts: &Vec<String>, name: &str) -> (value: Option<String>)
    ensures
        said(value) == last_value(text::texts(parts@), name@),
{
    let ghost all = text::texts(parts@);
    let mut left: usize = parts.len();
    assert(all.take(left as int) =~= all);
    while left > 0
        invariant
            left <= parts@.len(),
            all == text::texts(parts@),
            last_value(all, name@) == last_value(all.take(left as int), name@),
        decreases left,
    {
        assert(all.take(left as int).drop_last() =~= all.take(left - 1));
        assert(all.take(left as int).last() == parts@[left - 1]@);
        if let Some(rest) = text::strip_prefix(parts[left - 1].as_str(), name) {
            return Some(percent_decode(rest.as_str()));
        }
        left = left - 1;
    }
    None
}

/// The code that a request of the browser brings back, or why there is none. The mark of the
/// attempt has to come back with it.
pub fn parse_callback(request: &str, expected_state: &str) -> (code: Result<String, CallbackError>)
    ensures
        said_or(code) == callback_result(request@, expected_state@),
{
    let lines = text::split_text(request, text::Separator::Char('\n'));
    assert(text::texts(lines@)[0] == lines@[0]@);
    let pieces = text::split_text(lines[0].as_str(), text::Separator::WhiteSpace);
    let path = match second_word(&pieces) {
        Some(path) => path,
        None => return Err(CallbackError::InvalidRequest),
    };
    let addresses = text::split_text(path.as_str(), text::Separator::Char('?'));
    assert(text::texts(addresses@).len() == addresses@.len());
    let query = if addresses.len() > 1 {
        addresses[1].clone()
    } else {
        String::new()
    };
    assert(query@ =~= query_of(path@));
    let parts = text::split_text(query.as_str(), text::Separator::Char('&'));
    let code = find_value(&parts, "code=");
    let state = find_value(&parts, "state=");
    match state {
        None => Err(CallbackError::MissingState),
        Some(state) => if !text::same_text(state.as_str(), expected_state) {
            Err(CallbackError::StateMismatch)
        } else {
            match code {
                None => Err(CallbackError::MissingCode),
                Some(code) => Ok(code),
            }
        },
    }
}

/// Reads bytes as text by `std::str::from_utf8`, which succeeds exactly on well formed UTF-8.
/// Nothing is said of the words in which it reports anything else.
#[verifier::external_body]
fn utf8_text(bytes: &Vec<u8>) -> (text: Result<String, String>)
    ensures
        match text {
            Ok(text) => encode_utf8(text@) == bytes@,
            Err(_) => !valid_utf8(bytes@),
        },
{
    std::str::from_utf8(bytes).map(|text| text.to_owned()).map_err(|error| error.to_string())
}

/// The code that the bytes of a request of the browser bring back, or why there is none.
pub fn await_oauth_callback(request: &Vec<u8>, expected_state: &str) -> (code: Result<
    String,
    CallbackError,
>)
    ensures
        !valid_utf8(request@) ==> code is Err && code->Err_0 is NotText,
        forall|text: Seq<char>| #[trigger]
            encode_utf8(text) == request@ ==> said_or(code) == callback_result(
                text,
                expected_state@,
            ),
{
    match utf8_text(request) {
        Err(reason) => {
            assert forall|text: Seq<char>| #[trigger] encode_utf8(text) == request@ implies false by {
                vstd::utf8::encode_utf8_valid_utf8(text);
            }
            Err(CallbackError::NotText(reason))
        },
        Ok(found) => {
            proof {
                vstd::utf8::encode_utf8_valid_utf8(found@);
            }
            assert forall|text: Seq<char>| #[trigger] encode_utf8(text) == request@ implies text
                == found@ by {
                vstd::utf8::encode_utf8_decode_utf8(text);
                vstd::utf8::encode_utf8_decode_utf8(found@);
            }
            parse_callback(found.as_str(), expected_state)
        },
    }
}

/// No code is taken from a request that does not bring back the mark of the attempt.
pub proof fn code_needs_the_mark(request: Seq<char>, expected_state: Seq<char>)
    ensures
        callback_result(request, expected_state) is Ok ==> (request_path(
            request,
        ) matches Some(path) && last_value(
            text::split(query_of(path), text::is_char('&')),
            "state="@,
        ) == Some(expected_state)),
{
}

/// What the browser is shown once the user has signed in.
pub const CALLBACK_PAGE: &'static str =
    "HTTP/1.1 200 OK\r\nContent-Type: text/html\r\n\r\n<html><body><h1>Signed in to Zed</h1><p>Authentication successful. You can close this tab.</p></body></html>";

fn field(name: &str, value: &str) -> (field: (String, String))
    ensures
        field.0@ == name@,
        field.1@ == value@,
{
    (name.to_owned(), value.to_owned())
}

/// The fields with which a code is exchanged for tokens.
pub open spec fn exchange_fields(code: Seq<char>, verifier: Seq<char>) -> Seq<
    (Seq<char>, Seq<char>),
> {
    seq![
        ("grant_type"@, "authorization_code"@),
        ("client_id"@, CLIENT_ID@),
        ("code"@, code),
        ("redirect_uri"@, REDIRECT_URI@),
        ("code_verifier"@, verifier),
    ]
}

/// The fields with which tokens are renewed.
pub open spec fn refresh_fields(refresh_token: Seq<char>) -> Seq<(Seq<char>, Seq<char>)> {
    seq![
        ("grant_type"@, "refresh_token"@),
        ("client_id"@, CLIENT_ID@),
        ("refresh_token"@, refresh_token),
    ]
}

/// A form with the given fields.
pub open spec fn form_of(fields: Seq<(Seq<char>, Seq<char>)>) -> Seq<char> {
    text::join(
        Seq::new(
            fields.len(),
            |i: int|
                crate::form::form_bytes(encode_utf8(fields[i].0)) + seq!['=']
                    + crate::form::form_bytes(encode_utf8(fields[i].1)),
        ),
        seq!['&'],
    )
}

fn write_form(fields: &Vec<(String, String)>) -> (body: String)
    ensures
        body@ == form_of(text::text_pairs(fields@)),
{
    let body = form_body(fields);
    let ghost texts = text::text_pairs(fields@);
    assert(form_fields(fields@) =~= Seq::new(
        texts.len(),
        |i: int|
            crate::form::form_bytes(encode_utf8(texts[i].0)) + seq!['=']
                + crate::form::form_bytes(encode_utf8(texts[i].1)),
    ));
    body
}

/// The body of the request that exchanges a code for tokens.
pub fn exchange_code(code: &str, verifier: &str) -> (body: String)
    ensures
        body@ == form_of(exchange_fields(code@, verifier@)),
{
    let mut fields: Vec<(String, String)> = Vec::new();
    fields.push(field("grant_type", "authorization_code"));
    fields.push(field("client_id", CLIENT_ID));
    fields.push(field("code", code));
    fields.push(field("redirect_uri", REDIRECT_URI));
    fields.push(field("code_verifier", verifier));
    assert(text::text_pairs(fields@) =~= exchange_fields(code@, verifier@));
    write_form(&fields)
}

/// The body of the request that renews tokens.
pub fn refresh_token(token: &str) -> (body: String)
    ensures
        body@ == form_of(refresh_fields(token@)),
{
    let mut fields: Vec<(String, String)> = Vec::new();
    fields.push(field("grant_type", "refresh_token"));
    fields.push(field("client_id", CLIENT_ID));
    fields.push(field("refresh_token", token));
    assert(text::text_pairs(fields@) =~= refresh_fields(token@));
    write_form(&fields)
}

/// What is asked of the token service.
#[derive(Clone, Copy, Debug, PartialEq, Eq, Structural)]
pub enum TokenRequest {
    Exchange,
    Refresh,
}

/// What is reported when the token service refuses: its status line and what it sent.
pub fn token_error(request: TokenRequest, status: &str, body: &str) -> (message: String)
    ensures
        message@ == (match request {
            TokenRequest::Exchange => "Token exchange failed (HTTP "@,
            TokenRequest::Refresh => "Token refresh failed (HTTP "@,
        }) + status@ + "): "@ + body@,
{
    let mut message = match request {
        TokenRequest::Exchange => "Token exchange failed (HTTP ".to_owned(),
        TokenRequest::Refresh => "Token refresh failed (HTTP ".to_owned(),
    };
    message.append(status);
    message.append("): ");
    message.append(body);
    message
}

/// The words are the pieces that are not empty, in their order.
pub proof fn words_are_the_pieces_with_something_in_them(pieces: Seq<Seq<char>>)
    ensures
        words(pieces) == pieces.filter(|piece: Seq<char>| piece.len() > 0),
    decreases pieces.len(),
{
    reveal(Seq::filter);
    if pieces.len() > 0 {
        words_are_the_pieces_with_something_in_them(pieces.drop_last());
    } else {
        assert(words(pieces) =~= Seq::empty());
    }
}

/// Of several parts that give a value to a name the last counts, with its escapes undone, and
/// parts for other names make no difference.
pub proof fn last_part_counts(parts: Seq<Seq<char>>, name: Seq<char>, at: int)
    requires
        0 <= at < parts.len(),
        text::begins_with(parts[at], name),
        forall|i: int| at < i < parts.len() ==> !text::begins_with(#[trigger] parts[i], name),
    ensures
        last_value(parts, name) == Some(
            percent_decoded(encode_utf8(parts[at].skip(name.len() as int))),
        ),
    decreases parts.len(),
{
    if at < parts.len() - 1 {
        assert(!text::begins_with(parts[parts.len() - 1], name));
        assert forall|i: int| at < i < parts.drop_last().len() implies !text::begins_with(
            #[trigger] parts.drop_last()[i],
            name,
        ) by {
            assert(parts.drop_last()[i] == parts[i]);
        }
        last_part_counts(parts.drop_last(), name, at);
    }
}

/// A name that no part gives a value to has none.
pub proof fn missing_names_have_no_value(parts: Seq<Seq<char>>, name: Seq<char>)
    requires
        forall|i: int| 0 <= i < parts.len() ==> !text::begins_with(#[trigger] parts[i], name),
    ensures
        last_value(parts, name) is None,
    decreases parts.len(),
{
    if parts.len() > 0 {
        assert(!text::begins_with(parts[parts.len() - 1], name));
        assert forall|i: int| 0 <= i < parts.drop_last().len() implies !text::begins_with(
            #[trigger] parts.drop_last()[i],
            name,
        ) by {
            assert(parts.drop_last()[i] == parts[i]);
        }
        missing_names_have_no_value(parts.drop_last(), name);
    }
}

/// Whether no character of the text separates.
pub open spec fn is_free_of(text: Seq<char>, separates: spec_fn(char) -> bool) -> bool {
    forall|i: int| 0 <= i < text.len() ==> !separates(#[trigger] text[i])
}

proof fn first_line_has_three_words(method: Seq<char>, path: Seq<char>, protocol: Seq<char>)
    requires
        method.len() > 0 && is_free_of(method, text::is_white_space()),
        path.len() > 0 && is_free_of(path, text::is_white_space()),
        protocol.len() > 0 && is_free_of(protocol, text::is_white_space()),
    ensures
        words(
            text::split(
                method + seq![' '] + path + seq![' '] + protocol,
                text::is_white_space(),
            ),
        ) == seq![method, path, protocol],
{
    let space = text::is_white_space();
    let none = Seq::<char>::empty();
    text::text_is_split_at_separators(method, ' ', path.push(' ') + protocol, space);
    text::text_is_split_at_separators(path, ' ', protocol, space);
    text::text_is_split_at_separators(protocol, ' ', none, space);
    let line = method + seq![' '] + path + seq![' '] + protocol;
    assert(line =~= method.push(' ') + (path.push(' ') + protocol));
    let pieces = text::split(line, space);
    assert(pieces =~= seq![method, path, protocol]);
    let two = seq![method, path];
    let one = seq![method];
    assert(pieces.drop_last() =~= two);
    assert(two.drop_last() =~= one);
    assert(one.drop_last() =~= Seq::empty());
    assert(words(one.drop_last()) =~= Seq::empty());
    assert(words(one) =~= one);
    assert(words(two) =~= two);
    assert(words(pieces) =~= pieces);
}

proof fn query_stands_behind_the_question_mark(route: Seq<char>, query: Seq<char>)
    requires
        is_free_of(route, text::is_char('?')),
        is_free_of(query, text::is_char('?')),
    ensures
        query_of(route + seq!['?'] + query) == query,
{
    let mark = text::is_char('?');
    text::text_is_split_at_separators(route, '?', query, mark);
    text::text_is_split_at_separators(query, '?', Seq::empty(), mark);
    assert(route + seq!['?'] + query =~= route.push('?') + query);
    assert(text::split(route + seq!['?'] + query, mark) =~= seq![route, query]);
}

/// The query of a request is what stands behind the question mark of the address in its first
/// line, whatever else the request says.
pub proof fn request_brings_its_query(
    method: Seq<char>,
    route: Seq<char>,
    query: Seq<char>,
    protocol: Seq<char>,
    rest: Seq<char>,
)
    requires
        method.len() > 0 && is_free_of(method, text::is_white_space()),
        is_free_of(route, text::is_white_space()) && is_free_of(route, text::is_char('?')),
        is_free_of(query, text::is_white_space()) && is_free_of(query, text::is_char('?')),
        protocol.len() > 0 && is_free_of(protocol, text::is_white_space()),
    ensures
        ({
            let path = route + seq!['?'] + query;
            let line = method + seq![' '] + path + seq![' '] + protocol;
            &&& request_path(line + seq!['\n'] + rest) == Some(path)
            &&& request_path(line) == Some(path)
            &&& query_of(path) == query
        }),
{
    let path = route + seq!['?'] + query;
    let line = method + seq![' '] + path + seq![' '] + protocol;
    let end = text::is_char('\n');
    assert(is_free_of(path, text::is_white_space())) by {
        assert forall|i: int| 0 <= i < path.len() implies !text::is_white_space()(
            #[trigger] path[i],
        ) by {
            if i < route.len() {
                assert(path[i] == route[i]);
            } else if i > route.len() {
                assert(path[i] == query[i - route.len() - 1]);
            }
        }
    }
    first_line_has_three_words(method, path, protocol);
    query_stands_behind_the_question_mark(route, query);
    assert forall|i: int| 0 <= i < line.len() implies !end(#[trigger] line[i]) by {
        if i < method.len() {
            assert(line[i] == method[i]);
            assert(!text::is_white_space()(method[i]));
        } else if method.len() < i < method.len() + 1 + path.len() {
            assert(line[i] == path[i - method.len() - 1]);
            assert(!text::is_white_space()(path[i - method.len() - 1]));
        } else if i > method.len() + 1 + path.len() {
            assert(line[i] == protocol[i - method.len() - path.len() - 2]);
            assert(!text::is_white_space()(protocol[i - method.len() - path.len() - 2]));
        }
    }
    text::text_is_split_at_separators(line, '\n', rest, end);
    assert(line + seq!['\n'] + rest =~= line.push('\n') + rest);
    assert((text::split(line, end) + text::split(rest, end))[0] == line);
}

/// A request without a second word in its first line is not one that can be understood.
pub proof fn requests_need_an_address(method: Seq<char>, rest: Seq<char>, expected: Seq<char>)
    requires
        is_free_of(method, text::is_white_space()),
    ensures
        callback_result(method + seq!['\n'] + rest, expected) == Err::<Seq<char>, _>(
            CallbackError::InvalidRequest,
        ),
{
    let end = text::is_char('\n');
    assert forall|i: int| 0 <= i < method.len() implies !end(#[trigger] method[i]) by {
        assert(!text::is_white_space()(method[i]));
    }
    text::text_is_split_at_separators(method, '\n', rest, end);
    assert(method + seq!['\n'] + rest =~= method.push('\n') + rest);
    assert((text::split(method, end) + text::split(rest, end))[0] == method);
    text::text_is_split_at_separators(method, ' ', Seq::empty(), text::is_white_space());
    let one = seq![method];
    assert(text::split(method, text::is_white_space()) =~= one);
    assert(one.drop_last() =~= Seq::empty());
    assert(words(one.drop_last()) =~= Seq::empty());
}

/// The code is taken exactly where the mark comes back with it unchanged. Without a mark, with
/// another mark, or without a code the request says which of these it was, the mark first.
pub proof fn code_comes_with_the_mark(
    code: Option<Seq<char>>,
    state: Option<Seq<char>>,
    expected: Seq<char>,
)
    ensures
        match callback_code(code, state, expected) {
            Ok(taken) => state == Some(expected) && code == Some(taken),
            Err(error) => match error {
                CallbackError::MissingState => state is None,
                CallbackError::StateMismatch => state is Some && state != Some(expected),
                CallbackError::MissingCode => state == Some(expected) && code is None,
                CallbackError::NotText(_) => false,
                CallbackError::InvalidRequest => false,
            },
        },
{
}

proof fn encoded_text_is_free_of(bytes: Seq<u8>, name: Seq<char>, separates: spec_fn(char) -> bool)
    requires
        is_free_of(name, separates),
        separates == text::is_char('?') || separates == text::is_char('&') || separates
            == text::is_white_space(),
    ensures
        is_free_of(name + percent_encoded(bytes), separates),
{
    crate::percent::encoded_text_holds_no_separator(bytes);
    let all = name + percent_encoded(bytes);
    assert forall|i: int| 0 <= i < all.len() implies !separates(#[trigger] all[i]) by {
        if i < name.len() {
            assert(all[i] == name[i]);
        } else {
            assert(all[i] == percent_encoded(bytes)[i - name.len()]);
        }
    }
}

/// A browser that is sent back with a code and with the mark, both encoded, brings the code back:
/// in either order of the two, by any method, to any route, and whatever follows in the request.
pub proof fn browser_brings_the_code_back(
    code: Seq<char>,
    state: Seq<char>,
    state_comes_first: bool,
    method: Seq<char>,
    route: Seq<char>,
    protocol: Seq<char>,
    rest: Seq<char>,
)
    requires
        vstd::utf8::is_ascii_chars(code),
        vstd::utf8::is_ascii_chars(state),
        method.len() > 0 && is_free_of(method, text::is_white_space()),
        is_free_of(route, text::is_white_space()) && is_free_of(route, text::is_char('?')),
        protocol.len() > 0 && is_free_of(protocol, text::is_white_space()),
    ensures
        ({
            let code_part = "code="@ + percent_encoded(encode_utf8(code));
            let state_part = "state="@ + percent_encoded(encode_utf8(state));
            let query = if state_comes_first {
                state_part + seq!['&'] + code_part
            } else {
                code_part + seq!['&'] + state_part
            };
            let line = method + seq![' '] + (route + seq!['?'] + query) + seq![' '] + protocol;
            callback_result(line + seq!['\n'] + rest, state) == Ok::<_, CallbackError>(code)
        }),
{
    reveal_strlit("code=");
    reveal_strlit("state=");
    let code_part = "code="@ + percent_encoded(encode_utf8(code));
    let state_part = "state="@ + percent_encoded(encode_utf8(state));
    let (front, back) = if state_comes_first {
        (state_part, code_part)
    } else {
        (code_part, state_part)
    };
    let query = front + seq!['&'] + back;
    encoded_text_is_free_of(encode_utf8(code), "code="@, text::is_char('?'));
    encoded_text_is_free_of(encode_utf8(state), "state="@, text::is_char('?'));
    encoded_text_is_free_of(encode_utf8(code), "code="@, text::is_char('&'));
    encoded_text_is_free_of(encode_utf8(state), "state="@, text::is_char('&'));
    encoded_text_is_free_of(encode_utf8(code), "code="@, text::is_white_space());
    encoded_text_is_free_of(encode_utf8(state), "state="@, text::is_white_space());
    assert forall|i: int| 0 <= i < query.len() implies !text::is_char('?')(#[trigger] query[i])
        && !text::is_white_space()(query[i]) by {
        if i < front.len() {
            assert(query[i] == front[i]);
        } else if i > front.len() {
            assert(query[i] == back[i - front.len() - 1]);
        }
    }
    request_brings_its_query(method, route, query, protocol, rest);
    let and = text::is_char('&');
    text::text_is_split_at_separators(front, '&', back, and);
    text::text_is_split_at_separators(back, '&', Seq::empty(), and);
    assert(query =~= front.push('&') + back);
    let parts = text::split(query, and);
    assert(parts =~= seq![front, back]);
    text::beginning_and_rest_make_the_text(
        code_part,
        "code="@,
        percent_encoded(encode_utf8(code)),
    );
    text::beginning_and_rest_make_the_text(
        state_part,
        "state="@,
        percent_encoded(encode_utf8(state)),
    );
    assert(!text::begins_with(code_part, "state="@)) by {
        if text::begins_with(code_part, "state="@) {
            assert(code_part.take("state="@.len() as int)[0] == "state="@[0]);
            assert(code_part[0] == "code="@[0]);
        }
    }
    assert(!text::begins_with(state_part, "code="@)) by {
        if text::begins_with(state_part, "code="@) {
            assert(state_part.take("code="@.len() as int)[0] == "code="@[0]);
            assert(state_part[0] == "state="@[0]);
        }
    }
    let code_at: int = if state_comes_first {
        1
    } else {
        0
    };
    last_part_counts(parts, "code="@, code_at);
    last_part_counts(parts, "state="@, 1 - code_at);
    crate::percent::decoding_undoes_encoding(code);
    crate::percent::decoding_undoes_encoding(state);
}

/// The value of a hexadecimal digit with a small letter from ten on.
pub open spec fn digit_value(c: char) -> int {
    if c <= '9' {
        c as int - '0' as int
    } else {
        c as int - 'a' as int + 10
    }
}

/// Each byte of a mark is two digits, small from ten on, that give the byte again.
pub proof fn mark_gives_its_bytes_again(bytes: Seq<u8>, at: int)
    requires
        0 <= at < bytes.len(),
    ensures
        lower_hex(bytes).len() == 2 * bytes.len(),
        ({
            let high = lower_hex(bytes)[2 * at];
            let low = lower_hex(bytes)[2 * at + 1];
            &&& '0' <= high <= '9' || 'a' <= high <= 'f'
            &&& '0' <= low <= '9' || 'a' <= low <= 'f'
            &&& bytes[at] == 16 * digit_value(high) + digit_value(low)
        }),
    decreases bytes.len(),
{
    lower_hex_length(bytes);
    lower_hex_length(bytes.drop_last());
    let front = lower_hex(bytes.drop_last());
    if at < bytes.len() - 1 {
        mark_gives_its_bytes_again(bytes.drop_last(), at);
        assert(lower_hex(bytes)[2 * at] == front[2 * at]);
        assert(lower_hex(bytes)[2 * at + 1] == front[2 * at + 1]);
    } else {
        assert(lower_hex(bytes)[2 * at] == lower_hex_digit(bytes.last() / 16));
        assert(lower_hex(bytes)[2 * at + 1] == lower_hex_digit(bytes.last() % 16));
    }
}

/// A form has its fields in their order, each a name, an equals sign and a value, with an
/// ampersand between each two.
pub proof fn form_has_every_field(
    front: Seq<(Seq<char>, Seq<char>)>,
    back: Seq<(Seq<char>, Seq<char>)>,
    name: Seq<char>,
    value: Seq<char>,
)
    ensures
        form_of(seq![(name, value)]) == crate::form::form_bytes(encode_utf8(name)) + seq!['=']
            + crate::form::form_bytes(encode_utf8(value)),
        front.len() > 0 && back.len() > 0 ==> form_of(front + back) == form_of(front) + seq!['&']
            + form_of(back),
{
    let written = |fields: Seq<(Seq<char>, Seq<char>)>|
        Seq::new(
            fields.len(),
            |i: int|
                crate::form::form_bytes(encode_utf8(fields[i].0)) + seq!['=']
                    + crate::form::form_bytes(encode_utf8(fields[i].1)),
        );
    let one = seq![(name, value)];
    let only = crate::form::form_bytes(encode_utf8(name)) + seq!['='] + crate::form::form_bytes(
        encode_utf8(value),
    );
    assert(written(one) =~= seq![only]);
    text::joined_texts_stand_one_behind_the_other(
        written(front),
        written(back),
        only,
        seq!['&'],
    );
    assert(written(front + back) =~= written(front) + written(back));
}

/// The secret whose digest was shown when the user signed in is handed over with the code, and
/// with it where the code was sent to; renewing hands over the token to renew. Each is asked for by
/// its own name.
pub proof fn exchanges_hand_over_what_they_must(
    code: Seq<char>,
    verifier: Seq<char>,
    refresh_token: Seq<char>,
)
    ensures
        exchange_fields(code, verifier).contains(("code"@, code)),
        exchange_fields(code, verifier).contains(("code_verifier"@, verifier)),
        exchange_fields(code, verifier).contains(("redirect_uri"@, REDIRECT_URI@)),
        exchange_fields(code, verifier).contains(("grant_type"@, "authorization_code"@)),
        exchange_fields(code, verifier).contains(("client_id"@, CLIENT_ID@)),
        exchange_fields(code, verifier).len() == 5,
        refresh_fields(refresh_token).contains(("grant_type"@, "refresh_token"@)),
        refresh_fields(refresh_token).contains(("refresh_token"@, refresh_token)),
        refresh_fields(refresh_token).contains(("client_id"@, CLIENT_ID@)),
        refresh_fields(refresh_token).len() == 3,
{
    let fields = exchange_fields(code, verifier);
    assert(fields[0] == ("grant_type"@, "authorization_code"@));
    assert(fields[1] == ("client_id"@, CLIENT_ID@));
    assert(fields[2] == ("code"@, code));
    assert(fields[3] == ("redirect_uri"@, REDIRECT_URI@));
    assert(fields[4] == ("code_verifier"@, verifier));
    let renewal = refresh_fields(refresh_token);
    assert(renewal[0] == ("grant_type"@, "refresh_token"@));
    assert(renewal[1] == ("client_id"@, CLIENT_ID@));
    assert(renewal[2] == ("refresh_token"@, refresh_token));
}

/// What is asked for where the user signs in, each a name, an equals sign and a value.
pub open spec fn authorize_fields(challenge: Seq<char>, state: Seq<char>) -> Seq<Seq<char>> {
    seq![
        "client_id="@ + CLIENT_ID@,
        "redirect_uri="@ + percent_encoded(encode_utf8(REDIRECT_URI@)),
        "scope=openid+profile+email+offline_access"@,
        "response_type=code"@,
        "code_challenge="@ + challenge,
        "code_challenge_method=S256"@,
        "state="@ + state,
        "codex_cli_simplified_flow=true"@,
        "originator=zed"@,
    ]
}

proof fn joined_one_more(parts: Seq<Seq<char>>, more: Seq<char>)
    requires
        parts.len() > 0,
    ensures
        text::join(parts.push(more), seq!['&']) == text::join(parts, seq!['&']) + seq!['&'] + more,
{
    assert(parts.push(more).drop_last() =~= parts);
}

/// Where the user is asked to sign in is the address of the service with a query behind it, which
/// has the fields in their order.
pub proof fn authorize_url_has_a_query(challenge: Seq<char>, state: Seq<char>)
    ensures
        authorize_url(challenge, state) == OPENAI_AUTHORIZE_URL@ + seq!['?'] + text::join(
            authorize_fields(challenge, state),
            seq!['&'],
        ),
{
    reveal_strlit("?client_id=");
    reveal_strlit("client_id=");
    assert("?client_id="@ =~= seq!['?'] + "client_id="@);
    reveal_strlit("&redirect_uri=");
    reveal_strlit("redirect_uri=");
    assert("&redirect_uri="@ =~= seq!['&'] + "redirect_uri="@);
    reveal_strlit("&scope=openid+profile+email+offline_access&response_type=code&code_challenge=");
    reveal_strlit("scope=openid+profile+email+offline_access");
    reveal_strlit("response_type=code");
    reveal_strlit("code_challenge=");
    assert("&scope=openid+profile+email+offline_access&response_type=code&code_challenge="@
        =~= seq!['&'] + "scope=openid+profile+email+offline_access"@ + seq!['&']
        + "response_type=code"@ + seq!['&'] + "code_challenge="@);
    reveal_strlit("&code_challenge_method=S256&state=");
    reveal_strlit("code_challenge_method=S256");
    reveal_strlit("state=");
    assert("&code_challenge_method=S256&state="@ =~= seq!['&'] + "code_challenge_method=S256"@
        + seq!['&'] + "state="@);
    reveal_strlit("&codex_cli_simplified_flow=true&originator=zed");
    reveal_strlit("codex_cli_simplified_flow=true");
    reveal_strlit("originator=zed");
    assert("&codex_cli_simplified_flow=true&originator=zed"@ =~= seq!['&']
        + "codex_cli_simplified_flow=true"@ + seq!['&'] + "originator=zed"@);
    query_is_joined(
        challenge,
        state,
        CLIENT_ID@,
        percent_encoded(encode_utf8(REDIRECT_URI@)),
        OPENAI_AUTHORIZE_URL@,
    );
}

proof fn query_is_joined(
    challenge: Seq<char>,
    state: Seq<char>,
    client: Seq<char>,
    redirect: Seq<char>,
    address: Seq<char>,
)
    ensures
        address + (seq!['?'] + "client_id="@) + client + (seq!['&'] + "redirect_uri="@) + redirect
            + (seq!['&'] + "scope=openid+profile+email+offline_access"@ + seq!['&']
            + "response_type=code"@ + seq!['&'] + "code_challenge="@) + challenge + (seq!['&']
            + "code_challenge_method=S256"@ + seq!['&'] + "state="@) + state + (seq!['&']
            + "codex_cli_simplified_flow=true"@ + seq!['&'] + "originator=zed"@) == address + seq![
            '?',
        ] + text::join(
            seq![
                "client_id="@ + client,
                "redirect_uri="@ + redirect,
                "scope=openid+profile+email+offline_access"@,
                "response_type=code"@,
                "code_challenge="@ + challenge,
                "code_challenge_method=S256"@,
                "state="@ + state,
                "codex_cli_simplified_flow=true"@,
                "originator=zed"@,
            ],
            seq!['&'],
        ),
{
    let p1 = seq!["client_id="@ + client];
    let p2 = p1.push("redirect_uri="@ + redirect);
    let p3 = p2.push("scope=openid+profile+email+offline_access"@);
    let p4 = p3.push("response_type=code"@);
    let p5 = p4.push("code_challenge="@ + challenge);
    let p6 = p5.push("code_challenge_method=S256"@);
    let p7 = p6.push("state="@ + state);
    let p8 = p7.push("codex_cli_simplified_flow=true"@);
    let p9 = p8.push("originator=zed"@);
    assert(p9 =~= seq![
        "client_id="@ + client,
        "redirect_uri="@ + redirect,
        "scope=openid+profile+email+offline_access"@,
        "response_type=code"@,
        "code_challenge="@ + challenge,
        "code_challenge_method=S256"@,
        "state="@ + state,
        "codex_cli_simplified_flow=true"@,
        "originator=zed"@,
    ]);
    joined_one_more(p1, "redirect_uri="@ + redirect);
    joined_one_more(p2, "scope=openid+profile+email+offline_access"@);
    joined_one_more(p3, "response_type=code"@);
    joined_one_more(p4, "code_challenge="@ + challenge);
    joined_one_more(p5, "code_challenge_method=S256"@);
    joined_one_more(p6, "state="@ + state);
    joined_one_more(p7, "codex_cli_simplified_flow=true"@);
    joined_one_more(p8, "originator=zed"@);
    let front = address + seq!['?'];
    let u1 = address + (seq!['?'] + "client_id="@) + client;
    assert(u1 =~= front + text::join(p1, seq!['&']));
    let u2 = u1 + (seq!['&'] + "redirect_uri="@) + redirect;
    assert(u2 =~= front + text::join(p2, seq!['&']));
    let u5 = u2 + (seq!['&'] + "scope=openid+profile+email+offline_access"@ + seq!['&']
        + "response_type=code"@ + seq!['&'] + "code_challenge="@) + challenge;
    assert(u5 =~= front + text::join(p5, seq!['&']));
    let u7 = u5 + (seq!['&'] + "code_challenge_method=S256"@ + seq!['&'] + "state="@) + state;
    assert(u7 =~= front + text::join(p7, seq!['&']));
    let u9 = u7 + (seq!['&'] + "codex_cli_simplified_flow=true"@ + seq!['&'] + "originator=zed"@);
    assert(u9 =~= front + text::join(p9, seq!['&']));
}

/// Two attempts made of different random bytes have different marks. The address shows the digest
/// of the very secret that is handed over in the end, and the very mark that has to come back.
pub proof fn attempts_are_told_apart(
    first: OAuthSession,
    second: OAuthSession,
    first_bytes: (Seq<u8>, Seq<u8>),
    second_bytes: (Seq<u8>, Seq<u8>),
)
    requires
        first.is_made_of(first_bytes.0, first_bytes.1),
        second.is_made_of(second_bytes.0, second_bytes.1),
    ensures
        first_bytes.1 != second_bytes.1 ==> first.state@ != second.state@,
        first.state@.len() == 2 * first_bytes.1.len(),
        first.verifier@ == base64url(first_bytes.0),
        first.auth_url@ == OPENAI_AUTHORIZE_URL@ + seq!['?'] + text::join(
            authorize_fields(base64url(sha256(encode_utf8(first.verifier@))), first.state@),
            seq!['&'],
        ),
{
    lower_hex_length(first_bytes.1);
    if first.state@ == second.state@ {
        lower_hex_is_injective(first_bytes.1, second_bytes.1);
    }
    authorize_url_has_a_query(base64url(sha256(encode_utf8(first.verifier@))), first.state@);
}

} // verus!
