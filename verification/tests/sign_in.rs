use zed_core::jwt;
use zed_core::jwt::{JsonValue, JwtClaims};
use zed_core::oauth;
use zed_core::oauth::{CallbackError, TokenRequest};
use zed_core::percent::{percent_decode, percent_encode};
use zed_core::subscription;
use zed_core::subscription::{
    CodexCredentials, ConfigurationStatus, FreshCredentials, OpenAiSubscribedProvider,
    RefreshOutcome, SignInOutcome, State, TokenResponse,
};

fn request(path: &str) -> String {
    format!("GET {path} HTTP/1.1\r\nHost: localhost:1455\r\n\r\n")
}

fn token(payload: &str) -> String {
    let alphabet: Vec<char> =
        "ABCDEFGHIJKLMNOPQRSTUVWXYZabcdefghijklmnopqrstuvwxyz0123456789-_".chars().collect();
    let mut text = String::new();
    for chunk in payload.as_bytes().chunks(3) {
        let mut word: u32 = 0;
        for i in 0..3 {
            word = word * 256 + u32::from(*chunk.get(i).unwrap_or(&0));
        }
        for i in 0..(chunk.len() + 1) {
            text.push(alphabet[((word >> (18 - 6 * i)) & 63) as usize]);
        }
    }
    format!("header.{text}.signature")
}

fn credentials(expires_at_ms: u64) -> CodexCredentials {
    CodexCredentials {
        access_token: "access".to_owned(),
        refresh_token: "refresh".to_owned(),
        expires_at_ms,
        account_id: None,
        email: None,
    }
}

fn tokens(id_token: Option<String>, expires_in: u64, email: Option<&str>) -> TokenResponse {
    TokenResponse {
        access_token: "access".to_owned(),
        refresh_token: "refresh".to_owned(),
        id_token,
        expires_in,
        email: email.map(|email| email.to_owned()),
    }
}

#[test]
fn redirect_address_is_escaped() {
    assert_eq!(
        percent_encode("http://localhost:1455/auth/callback"),
        "http%3A%2F%2Flocalhost%3A1455%2Fauth%2Fcallback"
    );
    assert_eq!(percent_encode("AZaz09-_.~"), "AZaz09-_.~");
    assert_eq!(percent_encode("\u{e9}"), "%C3%A9");
    assert_eq!(percent_encode(""), "");
}

#[test]
fn escapes_are_read_byte_by_byte() {
    assert_eq!(percent_decode("a%20b+c"), "a b c");
    assert_eq!(percent_decode("%41%6a%6A"), "Ajj");
    assert_eq!(percent_decode("%C3%A9"), "\u{c3}\u{a9}");
    assert_eq!(percent_decode("%+f"), "\u{f}");
}

#[test]
fn cut_off_escapes_are_filled_with_zeros() {
    assert_eq!(percent_decode("%"), "\0");
    assert_eq!(percent_decode("%4"), "@");
}

#[test]
fn unreadable_escapes_lose_their_digits() {
    assert_eq!(percent_decode("%zz1"), "%1");
}

#[test]
fn decoding_undoes_encoding_of_ascii() {
    for text in ["", "a b&c=d%e+f", "~!@#$%^&*()_+{}|:\"<>?"] {
        assert_eq!(percent_decode(&percent_encode(text)), text);
    }
}

#[test]
fn session_is_made_of_the_random_bytes() {
    let session = oauth::session_from_random(&vec![0u8; 32], &(0u8..16).collect());
    assert_eq!(session.verifier, "A".repeat(43));
    assert_eq!(session.state, "000102030405060708090a0b0c0d0e0f");
    let challenge = "DwBzhbb51LfusnSGBa_hqYSgo7-j8BTQnip4TOnlzRo";
    assert_eq!(
        session.auth_url,
        format!(
            "https://auth.openai.com/oauth/authorize?client_id=app_EMoamEEZ73f0CkXaXp7hrann\
             &redirect_uri=http%3A%2F%2Flocalhost%3A1455%2Fauth%2Fcallback\
             &scope=openid+profile+email+offline_access&response_type=code\
             &code_challenge={challenge}&code_challenge_method=S256\
             &state=000102030405060708090a0b0c0d0e0f\
             &codex_cli_simplified_flow=true&originator=zed"
        )
    );
}

#[test]
fn challenge_is_that_of_the_standard() {
    let verifier_bytes: Vec<u8> = vec![
        116, 24, 223, 180, 151, 153, 224, 37, 79, 250, 96, 125, 216, 173, 187, 186, 22, 212, 37,
        77, 105, 214, 191, 240, 91, 88, 5, 88, 83, 132, 141, 121,
    ];
    let session = oauth::session_from_random(&verifier_bytes, &Vec::new());
    assert_eq!(session.verifier, "dBjftJeZ4CVP-mB92K27uhbUJU1p1r_wW1gFWFOEjXk");
    assert!(session
        .auth_url
        .contains("&code_challenge=E9Melhoa2OwvFrEMTJguCHaoeK1t8URWbuGJSstw-cM&"));
    assert_eq!(session.state, "");
}

#[test]
fn sessions_differ() {
    let first = oauth::start_oauth_flow();
    let second = oauth::start_oauth_flow();
    assert_eq!(first.verifier.len(), 43);
    assert_eq!(first.state.len(), 32);
    assert_ne!(first.state, second.state);
    assert_ne!(first.verifier, second.verifier);
    assert!(first.state.chars().all(|c| c.is_ascii_hexdigit() && !c.is_ascii_uppercase()));
}

#[test]
fn code_is_taken_from_the_callback() {
    let bytes = request("/auth/callback?code=a%2Fb&state=mark").into_bytes();
    assert_eq!(oauth::await_oauth_callback(&bytes, "mark"), Ok("a/b".to_owned()));
    assert_eq!(
        oauth::parse_callback(&request("/auth/callback?state=mark&code=x"), "mark"),
        Ok("x".to_owned())
    );
}

#[test]
fn last_of_several_codes_counts() {
    assert_eq!(
        oauth::parse_callback(&request("/?code=1&code=2&state=no&state=mark"), "mark"),
        Ok("2".to_owned())
    );
}

#[test]
fn query_ends_at_a_second_question_mark() {
    assert_eq!(
        oauth::parse_callback(&request("/?state=mark?code=1"), "mark"),
        Err(CallbackError::MissingCode)
    );
}

#[test]
fn callbacks_that_end_no_attempt() {
    assert_eq!(oauth::parse_callback("", "mark"), Err(CallbackError::InvalidRequest));
    assert_eq!(oauth::parse_callback("GET\r\n/?a", "mark"), Err(CallbackError::InvalidRequest));
    assert_eq!(
        oauth::parse_callback(&request("/auth/callback"), "mark"),
        Err(CallbackError::MissingState)
    );
    assert_eq!(
        oauth::parse_callback(&request("/?code=x&state=other"), "mark"),
        Err(CallbackError::StateMismatch)
    );
    assert_eq!(
        oauth::parse_callback(&request("/?state=mark"), "mark"),
        Err(CallbackError::MissingCode)
    );
    assert!(matches!(
        oauth::await_oauth_callback(&vec![0xff, 0xfe], "mark"),
        Err(CallbackError::NotText(_))
    ));
}

#[test]
fn callback_errors_are_described() {
    assert_eq!(CallbackError::InvalidRequest.message(), "Invalid HTTP request from browser");
    assert_eq!(CallbackError::MissingState.message(), "Missing state in OAuth callback");
    assert_eq!(CallbackError::StateMismatch.message(), "OAuth state mismatch");
    assert_eq!(
        CallbackError::MissingCode.message(),
        "Missing authorization code in OAuth callback"
    );
    assert_eq!(CallbackError::NotText("bad".to_owned()).message(), "bad");
    assert!(!CallbackError::NotText("bad".to_owned()).is_answered());
    assert!(!CallbackError::InvalidRequest.is_answered());
    assert!(CallbackError::MissingState.is_answered());
    assert!(CallbackError::StateMismatch.is_answered());
    assert!(CallbackError::MissingCode.is_answered());
}

#[test]
fn token_requests_are_forms() {
    assert_eq!(
        oauth::exchange_code("a b/c", "~v*"),
        "grant_type=authorization_code&client_id=app_EMoamEEZ73f0CkXaXp7hrann&code=a+b%2Fc\
         &redirect_uri=http%3A%2F%2Flocalhost%3A1455%2Fauth%2Fcallback&code_verifier=%7Ev*"
    );
    assert_eq!(
        oauth::refresh_token("\u{e9}&="),
        "grant_type=refresh_token&client_id=app_EMoamEEZ73f0CkXaXp7hrann\
         &refresh_token=%C3%A9%26%3D"
    );
}

#[test]
fn forms_are_read_back() {
    let body = oauth::refresh_token("a b+c%d");
    let value = body.split("refresh_token=").nth(1).expect("the field");
    let value = value.rsplit('=').next().expect("the value");
    assert_eq!(percent_decode(value), "a b+c%d");
}

#[test]
fn refusals_of_the_token_service_are_described() {
    assert_eq!(
        oauth::token_error(TokenRequest::Exchange, "400 Bad Request", "no"),
        "Token exchange failed (HTTP 400 Bad Request): no"
    );
    assert_eq!(
        oauth::token_error(TokenRequest::Refresh, "401 Unauthorized", ""),
        "Token refresh failed (HTTP 401 Unauthorized): "
    );
}

#[test]
fn account_is_found_in_three_places() {
    let own = token(r#"{"chatgpt_account_id":"one","https://api.openai.com/auth":{"chatgpt_account_id":"two"}}"#);
    assert_eq!(jwt::extract_jwt_claims(&own).account_id, Some("one".to_owned()));
    let of_service =
        token(r#"{"https://api.openai.com/auth":{"chatgpt_account_id":"two"},"organizations":[{"id":"three"}]}"#);
    assert_eq!(jwt::extract_jwt_claims(&of_service).account_id, Some("two".to_owned()));
    let of_organization = token(r#"{"organizations":[{"id":"three"},{"id":"four"}],"email":"a@b.c"}"#);
    assert_eq!(
        jwt::extract_jwt_claims(&of_organization),
        JwtClaims { account_id: Some("three".to_owned()), email: Some("a@b.c".to_owned()) }
    );
}

#[test]
fn claims_that_are_no_texts_are_passed_over() {
    let claims = jwt::extract_jwt_claims(&token(
        r#"{"chatgpt_account_id":7,"organizations":[],"email":["a@b.c"]}"#,
    ));
    assert_eq!(claims, JwtClaims { account_id: None, email: None });
    let claims = jwt::extract_jwt_claims(&token(r#"[1,2]"#));
    assert_eq!(claims, JwtClaims { account_id: None, email: None });
    let claims = jwt::extract_jwt_claims(&token(r#""text""#));
    assert_eq!(claims, JwtClaims { account_id: None, email: None });
}

#[test]
fn broken_tokens_say_nothing() {
    for jwt_text in ["", "one", "a.*.c", "a.eyJ.c", "a..c"] {
        assert_eq!(
            jwt::extract_jwt_claims(jwt_text),
            JwtClaims { account_id: None, email: None }
        );
    }
}

#[test]
fn signature_does_not_matter() {
    let with = token(r#"{"email":"a@b.c"}"#);
    let without = with.replace("signature", "x.y");
    assert_eq!(jwt::extract_jwt_claims(&with), jwt::extract_jwt_claims(&without));
    assert_eq!(jwt::extract_jwt_claims(&with).email, Some("a@b.c".to_owned()));
}

fn object(members: Vec<(&str, JsonValue)>) -> JsonValue {
    JsonValue::Object(members.into_iter().map(|(name, value)| (name.to_owned(), value)).collect())
}

fn text(value: &str) -> JsonValue {
    JsonValue::Text(value.to_owned())
}

#[test]
fn documents_are_read_whole() {
    let bytes = br#"{"a":[null,true,1.5,{"b":"c"}],"d":{}}"#.to_vec();
    let document = jwt::read_json(&bytes).expect("a document");
    assert_eq!(
        document,
        object(vec![
            (
                "a",
                JsonValue::Array(vec![
                    JsonValue::Null,
                    JsonValue::Bool(true),
                    JsonValue::Number,
                    object(vec![("b", text("c"))]),
                ])
            ),
            ("d", object(Vec::new())),
        ])
    );
    assert_eq!(document.member("a").and_then(|list| list.first_element()), Some(&JsonValue::Null));
    assert_eq!(document.member("b"), None);
    assert_eq!(document.first_element(), None);
    assert_eq!(document.text(), None);
    assert_eq!(JsonValue::Array(Vec::new()).first_element(), None);
    assert_eq!(text("t").text(), Some("t".to_owned()));
    assert_eq!(jwt::read_json(&b"{".to_vec()), None);
}

#[test]
fn claims_are_found_in_a_document() {
    assert_eq!(
        jwt::choose_account_id(None, Some("b".to_owned()), Some("c".to_owned())),
        Some("b".to_owned())
    );
    let of_service = object(vec![
        ("https://api.openai.com/auth", object(vec![("chatgpt_account_id", text("two"))])),
        ("organizations", JsonValue::Array(vec![object(vec![("id", text("three"))])])),
        ("email", text("e")),
    ]);
    assert_eq!(
        jwt::claims_in(&of_service),
        JwtClaims { account_id: Some("two".to_owned()), email: Some("e".to_owned()) }
    );
    let of_organization = object(vec![(
        "organizations",
        JsonValue::Array(vec![object(vec![("id", text("three"))]), object(Vec::new())]),
    )]);
    assert_eq!(
        jwt::claims_in(&of_organization),
        JwtClaims { account_id: Some("three".to_owned()), email: None }
    );
}

#[test]
fn credentials_expire_five_minutes_early() {
    assert!(!credentials(1_000_000).is_expired_at(699_999));
    assert!(credentials(1_000_000).is_expired_at(700_000));
    assert!(credentials(1_000_000).is_expired_at(u64::MAX));
    assert!(credentials(0).is_expired_at(0));
    assert!(credentials(0).is_expired());
    assert!(!credentials(u64::MAX).is_expired());
}

#[test]
fn clock_is_read_in_milliseconds() {
    assert_eq!(subscription::timestamp(None), 0);
    assert_eq!(subscription::timestamp(Some(1_234)), 1_234);
    assert_eq!(subscription::timestamp(Some((1u128 << 64) + 5)), 5);
    let now = subscription::now_ms();
    assert!(now > 1_600_000_000_000);
    assert!(now < 40_000_000_000_000);
}

#[test]
fn credentials_are_made_of_tokens() {
    let id_token = token(r#"{"chatgpt_account_id":"acc","email":"token@x.y"}"#);
    let made = subscription::credentials_for(tokens(Some(id_token), 3600, Some("other@x.y")), 50);
    assert_eq!(
        made,
        Some(CodexCredentials {
            access_token: "access".to_owned(),
            refresh_token: "refresh".to_owned(),
            expires_at_ms: 3_600_050,
            account_id: Some("acc".to_owned()),
            email: Some("token@x.y".to_owned()),
        })
    );
    let made = subscription::credentials_for(tokens(None, 1, Some("other@x.y")), 0)
        .expect("credentials");
    assert_eq!(made.email, Some("other@x.y".to_owned()));
    assert_eq!(made.account_id, None);
    assert_eq!(subscription::credentials_for(tokens(None, u64::MAX, None), 0), None);
    assert_eq!(subscription::credentials_for(tokens(None, 1, None), u64::MAX - 999), None);
}

#[test]
fn identity_is_read_from_the_token_made_for_it() {
    assert_eq!(tokens(Some("id".to_owned()), 1, None).identity_token(), "id");
    assert_eq!(tokens(None, 1, None).identity_token(), "access");
    assert_eq!(tokens(None, 2, None).expires_at_ms(10), Some(2_010));
}

#[test]
fn requests_need_someone_signed_in() {
    let mut state = State::new();
    assert!(!state.is_authenticated());
    assert_eq!(state.get_fresh_credentials(0), FreshCredentials::NoApiKey);
    assert_eq!(
        state.authenticate(),
        Err("Sign in with your ChatGPT Plus or Pro subscription to use this provider.".to_owned())
    );
    state.load_credentials(None);
    assert!(!state.is_authenticated());
    state.load_credentials(Some(credentials(1_000_000)));
    assert!(state.is_authenticated());
    assert_eq!(state.authenticate(), Ok(()));
    assert_eq!(
        state.get_fresh_credentials(0),
        FreshCredentials::Ready(credentials(1_000_000))
    );
    state.load_credentials(None);
    assert!(state.is_authenticated());
}

#[test]
fn one_request_renews_and_the_others_wait() {
    let mut state = State::new();
    state.load_credentials(Some(credentials(1_000)));
    assert_eq!(
        state.get_fresh_credentials(1_000),
        FreshCredentials::Refresh("refresh".to_owned())
    );
    assert_eq!(state.get_fresh_credentials(1_000), FreshCredentials::AwaitRefresh);
    assert_eq!(
        state.finish_refresh(RefreshOutcome::Done(credentials(9_000_000))),
        Ok(credentials(9_000_000))
    );
    assert_eq!(
        state.get_fresh_credentials(1_000),
        FreshCredentials::Ready(credentials(9_000_000))
    );
}

#[test]
fn failed_renewal_keeps_the_credentials() {
    let mut state = State::new();
    state.load_credentials(Some(credentials(1_000)));
    state.get_fresh_credentials(1_000);
    assert_eq!(
        state.finish_refresh(RefreshOutcome::NotRefreshed("down".to_owned())),
        Err("down".to_owned())
    );
    assert_eq!(state.credentials, Some(credentials(1_000)));
    assert_eq!(
        state.get_fresh_credentials(1_000),
        FreshCredentials::Refresh("refresh".to_owned())
    );
    assert_eq!(
        state.finish_refresh(RefreshOutcome::NotPersisted("full".to_owned())),
        Err("full".to_owned())
    );
    assert_eq!(state.credentials, Some(credentials(1_000)));
    assert!(!state.refreshing);
}

#[test]
fn signing_in_and_out() {
    let mut provider = OpenAiSubscribedProvider::new();
    let state = &mut provider.state;
    assert!(state.do_sign_in());
    assert!(!state.do_sign_in());
    assert!(state.is_signing_in());
    assert_eq!(
        state.configuration_status(),
        ConfigurationStatus::SigningIn { label: "Signing in\u{2026}".to_owned() }
    );
    state.finish_sign_in(SignInOutcome::NotSignedIn("closed".to_owned()));
    assert!(!state.is_signing_in());
    assert!(!state.is_authenticated());
    assert!(state.do_sign_in());
    state.finish_sign_in(SignInOutcome::NotPersisted("full".to_owned()));
    assert!(!state.is_authenticated());
    assert!(state.do_sign_in());
    let mut signed_in = credentials(1);
    signed_in.email = Some("a@b.c".to_owned());
    state.finish_sign_in(SignInOutcome::Done(signed_in));
    assert_eq!(state.email(), Some("a@b.c"));
    assert_eq!(
        state.configuration_status(),
        ConfigurationStatus::SignedIn { label: "Signed in as a@b.c".to_owned() }
    );
    state.do_sign_out();
    assert_eq!(
        state.configuration_status(),
        ConfigurationStatus::SignedOut {
            invitation: "Sign in with your ChatGPT Plus or Pro subscription to use OpenAI models \
                         in Zed's agent."
                .to_owned(),
            button: "Sign in with ChatGPT".to_owned(),
        }
    );
    state.load_credentials(Some(credentials(1)));
    assert_eq!(
        state.configuration_status(),
        ConfigurationStatus::SignedIn { label: "Signed in".to_owned() }
    );
}

#[test]
fn signing_out_ends_signing_in() {
    let mut provider = OpenAiSubscribedProvider::new();
    let state = &mut provider.state;
    assert!(state.do_sign_in());
    state.do_sign_out();
    assert!(!state.is_signing_in());
    state.finish_sign_in(SignInOutcome::Done(credentials(1)));
    assert_eq!(state.credentials, None);
    assert!(!state.is_authenticated());
}

#[test]
fn texts_are_encoded_one_behind_the_other() {
    for (first, second) in [("a b", "c&d"), ("\u{e9}", "="), ("", "%"), ("~", "")] {
        assert_eq!(
            percent_encode(&format!("{first}{second}")),
            percent_encode(first) + &percent_encode(second)
        );
    }
    assert_eq!(percent_encode("\u{e9}="), "%C3%A9%3D");
}
