//! A ChatGPT subscription as a provider of models: the credentials it needs, when they are
//! renewed, and what its backend wants of a request.

use crate::jwt::{account_in_token, email_in_token, extract_jwt_claims, JwtClaims};
use crate::text;
use std::time::{Duration, SystemTime, SystemTimeError, UNIX_EPOCH};
use vstd::prelude::*;

verus! {

/// What the provider is known as.
pub const PROVIDER_ID: &'static str = "openai-subscribed";

/// What the user sees of the provider.
pub const PROVIDER_NAME: &'static str = "ChatGPT Subscription";

/// Where requests go.
pub const CODEX_BASE_URL: &'static str = "https://chatgpt.com/backend-api/codex";

/// Where credentials are kept.
pub const CREDENTIALS_KEY: &'static str = "https://chatgpt.com/backend-api/codex";

/// How long before they expire credentials are renewed: five minutes.
pub const TOKEN_REFRESH_BUFFER_MS: u64 = 300_000;

/// What a subscription is used with.
#[derive(Debug, PartialEq, Eq)]
pub struct CodexCredentials {
    pub access_token: String,
    pub refresh_token: String,
    pub expires_at_ms: u64,
    pub account_id: Option<String>,
    pub email: Option<String>,
}

impl Clone for CodexCredentials {
    fn clone(&self) -> (copy: Self)
        ensures
            copy == *self,
    {
        CodexCredentials {
            access_token: self.access_token.clone(),
            refresh_token: self.refresh_token.clone(),
            expires_at_ms: self.expires_at_ms,
            account_id: text::copied(&self.account_id),
            email: text::copied(&self.email),
        }
    }
}

/// The time of the machine's clock, as `std` keeps it.
#[verifier::external_type_specification]
#[verifier::external_body]
pub struct ExSystemTime(SystemTime);

/// What `std` reports of two times in the wrong order.
#[verifier::external_type_specification]
#[verifier::external_body]
pub struct ExSystemTimeError(SystemTimeError);

/// The time of the machine's clock, by `SystemTime::now`. It may be any time.
#[verifier::external_body]
fn current_time() -> (time: SystemTime) {
    SystemTime::now()
}

/// How long a time is after the beginning of 1970, by `SystemTime::duration_since`. Nothing is
/// said of the result, since the time itself may be any.
#[verifier::external_body]
fn since_epoch(time: SystemTime) -> (elapsed: Result<Duration, SystemTimeError>) {
    time.duration_since(UNIX_EPOCH)
}

/// A span of time in whole milliseconds, by `Duration::as_millis`. Nothing is said of the
/// result, since the span itself may be any.
#[verifier::external_body]
fn whole_millis(span: Duration) -> (millis: u128) {
    span.as_millis()
}

/// The milliseconds since the beginning of 1970, cut to sixty-four bits; zero for a clock that
/// is set before that.
pub open spec fn timestamp_of(elapsed_ms: Option<u128>) -> u64 {
    match elapsed_ms {
        Some(elapsed) => (elapsed % 0x1_0000_0000_0000_0000) as u64,
        None => 0u64,
    }
}

/// The milliseconds since the beginning of 1970, given what the clock shows.
pub fn timestamp(elapsed_ms: Option<u128>) -> (now: u64)
    ensures
        now == timestamp_of(elapsed_ms),
{
    match elapsed_ms {
        Some(elapsed) => (elapsed % 0x1_0000_0000_0000_0000) as u64,
        None => 0,
    }
}

/// The milliseconds since the beginning of 1970 by the machine's clock.
pub fn now_ms() -> (now: u64)
    ensures
        exists|elapsed_ms: Option<u128>| now == #[trigger] timestamp_of(elapsed_ms),
{
    let elapsed_ms: Option<u128> = match since_epoch(current_time()) {
        Ok(elapsed) => Some(whole_millis(elapsed)),
        Err(_) => None,
    };
    timestamp(elapsed_ms)
}

impl CodexCredentials {
    /// Whether the credentials have to be renewed at the given time, five minutes before they
    /// expire.
    pub open spec fn expired_at(self, now: u64) -> bool {
        now + TOKEN_REFRESH_BUFFER_MS >= self.expires_at_ms
    }

    /// Whether the credentials have to be renewed at the given time.
    pub fn is_expired_at(&self, now: u64) -> (expired: bool)
        ensures
            expired == self.expired_at(now),
    {
        self.expires_at_ms < TOKEN_REFRESH_BUFFER_MS || now >= self.expires_at_ms
            - TOKEN_REFRESH_BUFFER_MS
    }

    /// Whether the credentials have to be renewed now.
    pub fn is_expired(&self) -> (expired: bool)
        ensures
            exists|now: u64| expired == #[trigger] self.expired_at(now),
            self.expires_at_ms <= TOKEN_REFRESH_BUFFER_MS ==> expired,
    {
        let now: u64 = now_ms();
        let expired = self.is_expired_at(now);
        assert(expired == self.expired_at(now));
        expired
    }
}

/// Credentials that have expired stay expired.
pub proof fn expiry_is_final(credentials: CodexCredentials, earlier: u64, later: u64)
    requires
        earlier <= later,
        credentials.expired_at(earlier),
    ensures
        credentials.expired_at(later),
{
}

/// What the token service gives.
#[derive(Debug, PartialEq, Eq)]
pub struct TokenResponse {
    pub access_token: String,
    pub refresh_token: String,
    pub id_token: Option<String>,
    pub expires_in: u64,
    pub email: Option<String>,
}

impl TokenResponse {
    /// The token that names its holder: the one made for that, or else the access token.
    pub open spec fn identity(self) -> Seq<char> {
        match self.id_token {
            Some(id_token) => id_token@,
            None => self.access_token@,
        }
    }

    /// The token that names its holder.
    pub fn identity_token(&self) -> (token: &str)
        ensures
            token@ == self.identity(),
    {
        match &self.id_token {
            Some(id_token) => id_token.as_str(),
            None => self.access_token.as_str(),
        }
    }

    /// When the tokens expire, if that is a time at all.
    pub fn expires_at_ms(&self, now: u64) -> (expires_at_ms: Option<u64>)
        ensures
            expires_at_ms == (if now + self.expires_in * 1000 <= u64::MAX {
                Some((now + self.expires_in * 1000) as u64)
            } else {
                None
            }),
    {
        match self.expires_in.checked_mul(1000) {
            Some(span) => now.checked_add(span),
            None => None,
        }
    }
}

/// The credentials that tokens make up, with what they say of their holder. Of two email
/// addresses the one in the token is taken.
pub fn credentials_from_tokens(tokens: TokenResponse, claims: JwtClaims, now: u64) -> (credentials:
    CodexCredentials)
    requires
        now + tokens.expires_in * 1000 <= u64::MAX,
    ensures
        credentials == (CodexCredentials {
            access_token: tokens.access_token,
            refresh_token: tokens.refresh_token,
            expires_at_ms: (now + tokens.expires_in * 1000) as u64,
            account_id: claims.account_id,
            email: if claims.email is Some {
                claims.email
            } else {
                tokens.email
            },
        }),
{
    let expires_at_ms: u64 = now + tokens.expires_in * 1000;
    CodexCredentials {
        access_token: tokens.access_token,
        refresh_token: tokens.refresh_token,
        expires_at_ms,
        account_id: claims.account_id,
        email: if claims.email.is_some() {
            claims.email
        } else {
            tokens.email
        },
    }
}

/// The credentials that tokens make up, with what they say of their holder themselves. There are
/// none where the tokens would expire at a time that is too far off to be written down.
pub fn credentials_for(tokens: TokenResponse, now: u64) -> (credentials: Option<CodexCredentials>)
    ensures
        credentials is Some == (now + tokens.expires_in * 1000 <= u64::MAX),
        credentials matches Some(credentials) ==> {
            &&& credentials.access_token == tokens.access_token
            &&& credentials.refresh_token == tokens.refresh_token
            &&& credentials.expires_at_ms == now + tokens.expires_in * 1000
            &&& text::said(credentials.account_id) == account_in_token(tokens.identity())
            &&& text::said(credentials.email) == (match email_in_token(tokens.identity()) {
                Some(email) => Some(email),
                None => text::said(tokens.email),
            })
        },
{
    if tokens.expires_at_ms(now).is_none() {
        return None;
    }
    let claims = extract_jwt_claims(tokens.identity_token());
    Some(credentials_from_tokens(tokens, claims, now))
}

/// What is known of the user's subscription.
#[derive(Debug, PartialEq, Eq)]
pub struct State {
    pub credentials: Option<CodexCredentials>,
    /// Whether the user is signing in.
    pub signing_in: bool,
    /// Whether the credentials are being renewed.
    pub refreshing: bool,
}

/// What has to be done before a request can be made.
#[derive(Debug, PartialEq, Eq)]
pub enum FreshCredentials {
    /// The user has to sign in.
    NoApiKey,
    /// These can be used.
    Ready(CodexCredentials),
    /// Wait for those that are being renewed.
    AwaitRefresh,
    /// Renew them with this token.
    Refresh(String),
}

/// How the renewal of credentials ended.
#[derive(Debug, PartialEq, Eq)]
pub enum RefreshOutcome {
    /// The token service gave none.
    NotRefreshed(String),
    /// They could not be stored.
    NotPersisted(String),
    Done(CodexCredentials),
}

/// How signing in ended.
#[derive(Debug, PartialEq, Eq)]
pub enum SignInOutcome {
    /// The user did not sign in.
    NotSignedIn(String),
    /// The credentials could not be stored.
    NotPersisted(String),
    Done(CodexCredentials),
}

/// What the user is shown of the subscription.
#[derive(Debug, PartialEq, Eq)]
pub enum ConfigurationStatus {
    /// Who is signed in, with a way to sign out.
    SignedIn { label: String },
    /// A note that signing in goes on.
    SigningIn { label: String },
    /// An invitation to sign in, with a button.
    SignedOut { invitation: String, button: String },
}

impl State {
    /// Nobody signed in and nothing going on.
    pub fn new() -> (state: Self)
        ensures
            state == (State { credentials: None, signing_in: false, refreshing: false }),
    {
        State { credentials: None, signing_in: false, refreshing: false }
    }

    /// Whether the user is signed in.
    pub fn is_authenticated(&self) -> (authenticated: bool)
        ensures
            authenticated == self.credentials is Some,
    {
        self.credentials.is_some()
    }

    /// The user's email address.
    pub open spec fn email_text(self) -> Option<Seq<char>> {
        match self.credentials {
            Some(credentials) => text::said(credentials.email),
            None => None,
        }
    }

    /// The user's email address.
    pub fn email(&self) -> (email: Option<&str>)
        ensures
            match email {
                Some(email) => self.email_text() == Some(email@),
                None => self.email_text() is None,
            },
    {
        match &self.credentials {
            Some(credentials) => match &credentials.email {
                Some(email) => Some(email.as_str()),
                None => None,
            },
            None => None,
        }
    }

    /// Whether the user is signing in.
    pub fn is_signing_in(&self) -> (signing_in: bool)
        ensures
            signing_in == self.signing_in,
    {
        self.signing_in
    }

    /// Whether requests can be made, or what the user has to do first.
    pub fn authenticate(&self) -> (result: Result<(), String>)
        ensures
            result is Ok == self.credentials is Some,
            result matches Err(message) ==> message@
                == "Sign in with your ChatGPT Plus or Pro subscription to use this provider."@,
    {
        if self.is_authenticated() {
            return Ok(());
        }
        Err("Sign in with your ChatGPT Plus or Pro subscription to use this provider.".to_owned())
    }

    /// Takes over stored credentials, if there were any that could be read.
    pub fn load_credentials(&mut self, stored: Option<CodexCredentials>)
        ensures
            *final(self) == (State {
                credentials: if stored is Some {
                    stored
                } else {
                    old(self).credentials
                },
                ..*old(self)
            }),
    {
        if stored.is_some() {
            self.credentials = stored;
        }
    }

    /// What has to be done before a request can be made at the given time.
    pub open spec fn fresh_credentials(self, now: u64) -> FreshCredentials {
        match self.credentials {
            None => FreshCredentials::NoApiKey,
            Some(credentials) => if !credentials.expired_at(now) {
                FreshCredentials::Ready(credentials)
            } else if self.refreshing {
                FreshCredentials::AwaitRefresh
            } else {
                FreshCredentials::Refresh(credentials.refresh_token)
            },
        }
    }

    /// What has to be done before a request can be made at the given time. If the credentials
    /// have to be renewed, they count as being renewed from now on.
    pub fn get_fresh_credentials(&mut self, now: u64) -> (fresh: FreshCredentials)
        ensures
            fresh == old(self).fresh_credentials(now),
            *final(self) == (State {
                refreshing: old(self).refreshing || fresh is Refresh,
                ..*old(self)
            }),
    {
        let fresh = match &self.credentials {
            None => FreshCredentials::NoApiKey,
            Some(credentials) => if !credentials.is_expired_at(now) {
                FreshCredentials::Ready(credentials.clone())
            } else if self.refreshing {
                FreshCredentials::AwaitRefresh
            } else {
                FreshCredentials::Refresh(credentials.refresh_token.clone())
            },
        };
        if let FreshCredentials::Refresh(_) = &fresh {
            self.refreshing = true;
        }
        fresh
    }

    /// The state after a renewal. Only credentials that could be stored are used.
    pub open spec fn refreshed(self, outcome: RefreshOutcome) -> State {
        match outcome {
            RefreshOutcome::Done(credentials) => State {
                credentials: Some(credentials),
                refreshing: false,
                ..self
            },
            _ => State { refreshing: false, ..self },
        }
    }

    /// Ends a renewal, for everyone who waits for it.
    pub fn finish_refresh(&mut self, outcome: RefreshOutcome) -> (result: Result<
        CodexCredentials,
        String,
    >)
        ensures
            *final(self) == old(self).refreshed(outcome),
            result == (match outcome {
                RefreshOutcome::NotRefreshed(reason) => Err(reason),
                RefreshOutcome::NotPersisted(reason) => Err(reason),
                RefreshOutcome::Done(credentials) => Ok(credentials),
            }),
    {
        self.refreshing = false;
        match outcome {
            RefreshOutcome::NotRefreshed(reason) => Err(reason),
            RefreshOutcome::NotPersisted(reason) => Err(reason),
            RefreshOutcome::Done(credentials) => {
                self.credentials = Some(credentials.clone());
                Ok(credentials)
            },
        }
    }

    /// Starts signing in, unless that goes on already: says whether to start.
    pub fn do_sign_in(&mut self) -> (start: bool)
        ensures
            start == !old(self).signing_in,
            *final(self) == (State { signing_in: true, ..*old(self) }),
    {
        if self.signing_in {
            return false;
        }
        self.signing_in = true;
        true
    }

    /// The state after signing in has ended. Only credentials that could be stored are used, and
    /// nothing changes where the user has signed out meanwhile.
    pub open spec fn signed_in(self, outcome: SignInOutcome) -> State {
        if !self.signing_in {
            self
        } else {
            match outcome {
                SignInOutcome::Done(credentials) => State {
                    credentials: Some(credentials),
                    signing_in: false,
                    ..self
                },
                _ => State { signing_in: false, ..self },
            }
        }
    }

    /// Ends signing in, unless the user has signed out meanwhile.
    pub fn finish_sign_in(&mut self, outcome: SignInOutcome)
        ensures
            *final(self) == old(self).signed_in(outcome),
    {
        if !self.signing_in {
            return ;
        }
        self.signing_in = false;
        if let SignInOutcome::Done(credentials) = outcome {
            self.credentials = Some(credentials);
        }
    }

    /// The state after the user has signed out.
    pub open spec fn signed_out(self) -> State {
        State { credentials: None, signing_in: false, ..self }
    }

    /// Ends signing out, whether or not the stored credentials could be deleted.
    pub fn do_sign_out(&mut self)
        ensures
            *final(self) == old(self).signed_out(),
    {
        self.credentials = None;
        self.signing_in = false;
    }

    /// What the user is shown of the subscription.
    pub fn configuration_status(&self) -> (status: ConfigurationStatus)
        ensures
            match status {
                ConfigurationStatus::SignedIn { label } => {
                    &&& self.credentials is Some
                    &&& label@ == (match self.email_text() {
                        Some(email) => "Signed in as "@ + email,
                        None => "Signed in"@,
                    })
                },
                ConfigurationStatus::SigningIn { label } => {
                    &&& self.credentials is None
                    &&& self.signing_in
                    &&& label@ == "Signing in\u{2026}"@
                },
                ConfigurationStatus::SignedOut { invitation, button } => {
                    &&& self.credentials is None
                    &&& !self.signing_in
                    &&& invitation@
                        == "Sign in with your ChatGPT Plus or Pro subscription to use OpenAI models in Zed's agent."@
                    &&& button@ == "Sign in with ChatGPT"@
                },
            },
    {
        if self.is_authenticated() {
            let label = match self.email() {
                Some(email) => text::joined("Signed in as ", email),
                None => "Signed in".to_owned(),
            };
            return ConfigurationStatus::SignedIn { label };
        }
        if self.is_signing_in() {
            return ConfigurationStatus::SigningIn { label: "Signing in\u{2026}".to_owned() };
        }
        ConfigurationStatus::SignedOut {
            invitation:
                "Sign in with your ChatGPT Plus or Pro subscription to use OpenAI models in Zed's agent.".to_owned(),
            button: "Sign in with ChatGPT".to_owned(),
        }
    }
}

/// The subscription as a provider of models.
#[derive(Debug, PartialEq, Eq)]
pub struct OpenAiSubscribedProvider {
    pub state: State,
}

impl OpenAiSubscribedProvider {
    /// The provider before any stored credentials were looked for.
    pub fn new() -> (provider: Self)
        ensures
            provider.state == (State { credentials: None, signing_in: false, refreshing: false }),
    {
        OpenAiSubscribedProvider { state: State::new() }
    }
}

/// Credentials are renewed by one request at a time: while one renews them, no other does, and
/// whatever comes of it the next may try again.
pub proof fn one_refresh_at_a_time(state: State, now: u64, later: u64, outcome: RefreshOutcome)
    requires
        state.fresh_credentials(now) is Refresh,
    ensures
        !((State { refreshing: true, ..state }).fresh_credentials(later) is Refresh),
        !(State { refreshing: true, ..state }).refreshed(outcome).refreshing,
{
}

/// A renewal that failed leaves the credentials as they were.
pub proof fn failed_refresh_keeps_credentials(state: State, outcome: RefreshOutcome)
    requires
        !(outcome is Done),
    ensures
        state.refreshed(outcome).credentials == state.credentials,
{
}

/// Credentials that were just renewed are ready for use until five minutes before they expire.
pub proof fn refreshed_credentials_are_ready(
    state: State,
    credentials: CodexCredentials,
    now: u64,
)
    requires
        now + TOKEN_REFRESH_BUFFER_MS < credentials.expires_at_ms,
    ensures
        state.refreshed(RefreshOutcome::Done(credentials)).fresh_credentials(now)
            == FreshCredentials::Ready(credentials),
{
}

/// Signing out ends an attempt to sign in: whatever comes of it, nobody is signed in.
pub proof fn signing_out_ends_signing_in(state: State, outcome: SignInOutcome)
    ensures
        state.signed_out().signed_in(outcome) == state.signed_out(),
        state.signed_out().signed_in(outcome).credentials is None,
{
}

/// Credentials are used for a request exactly while they last for more than another five minutes.
/// Others are renewed, with their own token, by the first who asks; everyone else waits for that.
/// Only without any the user has to sign in.
pub proof fn requests_get_credentials_that_last(state: State, now: u64)
    ensures
        match state.fresh_credentials(now) {
            FreshCredentials::NoApiKey => state.credentials is None,
            FreshCredentials::Ready(credentials) => state.credentials == Some(credentials) && now
                + 5 * 60 * 1000 < credentials.expires_at_ms,
            FreshCredentials::AwaitRefresh => state.refreshing && state.credentials is Some && now
                + 5 * 60 * 1000 >= state.credentials->0.expires_at_ms,
            FreshCredentials::Refresh(token) => !state.refreshing && state.credentials is Some
                && token == state.credentials->0.refresh_token && now + 5 * 60 * 1000
                >= state.credentials->0.expires_at_ms,
        },
{
}

/// Signing in and renewing use the credentials that they end with, and only where these could be
/// stored: any other end keeps those there were. Either way it is over, and neither ends the
/// other.
pub proof fn only_stored_credentials_are_used(
    state: State,
    signed: SignInOutcome,
    renewed: RefreshOutcome,
)
    ensures
        state.signing_in ==> state.signed_in(signed).credentials == (match signed {
            SignInOutcome::Done(credentials) => Some(credentials),
            SignInOutcome::NotSignedIn(_) => state.credentials,
            SignInOutcome::NotPersisted(_) => state.credentials,
        }),
        !state.signed_in(signed).signing_in,
        state.signed_in(signed).refreshing == state.refreshing,
        state.refreshed(renewed).credentials == (match renewed {
            RefreshOutcome::Done(credentials) => Some(credentials),
            RefreshOutcome::NotRefreshed(_) => state.credentials,
            RefreshOutcome::NotPersisted(_) => state.credentials,
        }),
        !state.refreshed(renewed).refreshing,
        state.refreshed(renewed).signing_in == state.signing_in,
        !state.signed_out().signing_in,
        state.signed_out().refreshing == state.refreshing,
{
}

/// A clock after the beginning of 1970 gives its milliseconds as they are, as long as they fit, and
/// one before gives zero.
pub proof fn timestamps_are_milliseconds(elapsed_ms: u128)
    ensures
        elapsed_ms <= u64::MAX ==> timestamp_of(Some(elapsed_ms)) == elapsed_ms,
        timestamp_of(None) == 0,
{
}

/// The holder is read from the token that is made for it, and from the access token only where
/// there is no such.
pub proof fn identity_token_comes_first(tokens: TokenResponse)
    ensures
        tokens.id_token matches Some(id_token) ==> tokens.identity() == id_token@,
        tokens.id_token is None ==> tokens.identity() == tokens.access_token@,
{
}

/// The address that is shown is that of the credentials in use, and none without any.
pub proof fn email_is_that_of_the_credentials(state: State)
    ensures
        state.email_text() is Some == (state.credentials is Some
            && state.credentials->0.email is Some),
        state.email_text() matches Some(email) ==> email == state.credentials->0.email->0@,
{
}

} // verus!
