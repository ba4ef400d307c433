use runeroster_core::auth::{
    authorization_code_form, build_consent_url, build_login_url, code_challenge_s256,
    decode_id_token_claims, generate_state, parse_consent_redirect, parse_redirect_url,
    random_string, refresh_token_form, session_url, token_url, AuthError, LoginFlow,
    LoginFlowError, Pkce, TokenResponse, ACCOUNT_ORIGIN, CLIENT_ID, STATE_LENGTH, VERIFIER_CHARS,
    VERIFIER_LENGTH,
};

#[test]
fn pkce_verifier_uses_allowed_charset_and_length() {
    let pkce = Pkce::generate();
    assert_eq!(pkce.verifier.len(), VERIFIER_LENGTH);
    assert!(pkce
        .verifier
        .bytes()
        .all(|b| VERIFIER_CHARS.as_bytes().contains(&b)));
    // S256 challenge is a 32-byte SHA-256 digest, base64url-encoded without padding.
    assert_eq!(pkce.challenge.len(), 43);
    assert!(!pkce.challenge.contains('='));
}

#[test]
fn state_is_alphabetic_and_expected_length() {
    let state = generate_state();
    assert_eq!(state.len(), STATE_LENGTH);
    assert!(state.chars().all(|c| c.is_ascii_alphabetic()));
}

#[test]
fn parses_real_redirect_url_shape() {
    let url = "https://secure.runescape.com/m=weblogin/launcher-redirect?code=abc.def&scope=offline+openid&state=STATE123";
    let parsed = parse_redirect_url(url, "STATE123").unwrap();
    assert_eq!(parsed.code, "abc.def");
}

#[test]
fn rejects_redirect_url_with_mismatched_state() {
    let url = "https://example.test/callback?code=abc&state=wrong";
    assert!(matches!(
        parse_redirect_url(url, "expected"),
        Err(AuthError::StateMismatch)
    ));
}

#[test]
fn rejects_redirect_url_missing_params() {
    let url = "https://example.test/callback?foo=bar";
    assert!(matches!(
        parse_redirect_url(url, "expected"),
        Err(AuthError::InvalidRedirect)
    ));
}

#[test]
fn parses_consent_redirect_fragment() {
    let url = "http://localhost/#code=abc.def&id_token=header.payload.sig&state=STATE123";
    let parsed = parse_consent_redirect(url, "STATE123").unwrap();
    assert_eq!(parsed.code, "abc.def");
    assert_eq!(parsed.id_token, "header.payload.sig");
}

#[test]
fn rejects_consent_redirect_with_mismatched_state() {
    let url = "http://localhost/#code=abc&id_token=x&state=wrong";
    assert!(matches!(
        parse_consent_redirect(url, "expected"),
        Err(AuthError::StateMismatch)
    ));
}

#[test]
fn rejects_consent_redirect_without_fragment() {
    let url = "http://localhost/?code=abc&id_token=x&state=expected";
    assert!(matches!(
        parse_consent_redirect(url, "expected"),
        Err(AuthError::InvalidRedirect)
    ));
}

#[test]
fn login_flow_start_yields_awaiting_login_state() {
    let (flow, url) = LoginFlow::start();
    assert!(matches!(flow, LoginFlow::AwaitingLogin { .. }));
    assert!(url.starts_with(ACCOUNT_ORIGIN));
    assert!(flow.describe().contains("AwaitingLogin"));
}

#[test]
fn login_flow_rejects_consent_step_out_of_order() {
    let (flow, _) = LoginFlow::start();
    let result = flow.consent_exchange("http://localhost/#code=x");
    assert!(matches!(result, Err(LoginFlowError::WrongStep)));
}

#[test]
fn login_flow_rejects_login_step_when_awaiting_consent() {
    let flow = LoginFlow::AwaitingConsent {
        refresh_token: "irrelevant".into(),
        consent_state: "irrelevant".into(),
    };
    let result = flow.login_exchange("https://example.test/callback?code=x&state=y");
    assert!(matches!(result, Err(LoginFlowError::WrongStep)));
}

#[test]
fn login_flow_surfaces_state_mismatch_before_any_network_call() {
    let (flow, _) = LoginFlow::start();
    // Wrong state: refused before any code exchange is asked for.
    let result = flow.login_exchange("https://example.test/callback?code=x&state=wrong");
    assert!(matches!(
        result,
        Err(LoginFlowError::Auth(AuthError::StateMismatch))
    ));
}

#[test]
fn login_url_contains_expected_fixed_params() {
    let pkce = Pkce::generate();
    let state = generate_state();
    let url = build_login_url("https://example.test/callback", &state, &pkce);
    assert!(url.starts_with(ACCOUNT_ORIGIN));
    assert!(url.contains("client_id=com_jagex_auth_desktop_launcher"));
    assert!(url.contains("code_challenge_method=S256"));
    assert!(url.contains(&format!("code_challenge={}", pkce.challenge)));
    assert!(url.contains(&format!("state={state}")));
}

#[test]
fn decodes_id_token_claims() {
    // header.payload.signature, where payload = base64url({"sub":"abc123"})
    let payload = base64::Engine::encode(
        &base64::engine::general_purpose::URL_SAFE_NO_PAD,
        br#"{"sub":"abc123"}"#,
    );
    let token = format!("header.{payload}.signature");
    let claims = decode_id_token_claims(&token).unwrap();
    assert_eq!(claims["sub"], "abc123");
}

#[test]
fn rejects_malformed_id_token() {
    assert!(decode_id_token_claims("not-a-jwt").is_err());
}

#[test]
fn rejects_id_token_whose_body_is_not_base64() {
    assert_eq!(
        decode_id_token_claims("header.!!!.signature").unwrap_err(),
        AuthError::InvalidIdToken
    );
}

#[test]
fn rejects_id_token_whose_body_is_not_json() {
    let payload = base64::Engine::encode(
        &base64::engine::general_purpose::URL_SAFE_NO_PAD,
        b"not json",
    );
    let token = format!("header.{payload}.signature");
    assert_eq!(
        decode_id_token_claims(&token).unwrap_err(),
        AuthError::InvalidIdToken
    );
}

#[test]
fn challenge_matches_pkce_specification_example() {
    // The example verifier and challenge of the PKCE specification (RFC 7636, appendix B).
    assert_eq!(
        code_challenge_s256("dBjftJeZ4CVP-mB92K27uhbUJU1p1r_wW1gFWFOEjXk"),
        "E9Melhoa2OwvFrEMTJguCHaoeK1t8URWbuGJSstw-cM"
    );
}

#[test]
fn login_url_percent_encodes_scope_and_redirect() {
    let pkce = Pkce::generate();
    let url = build_login_url("https://example.test/callback", "STATE", &pkce);
    assert!(url.contains("&scope=openid%20offline%20gamesso.token.create%20"));
    assert!(url.contains("&redirect_uri=https%3A%2F%2Fexample.test%2Fcallback&"));
    assert!(url.ends_with("&state=STATE"));
}

#[test]
fn consent_url_has_exact_shape() {
    let url = build_consent_url("TOKEN", "STATE", "NONCE");
    assert_eq!(
        url,
        "https://account.jagex.com/oauth2/auth?prompt=consent&redirect_uri=http%3A%2F%2Flocalhost\
         &response_type=id_token+code&client_id=1fddee4e-b100-4f4e-b2b0-097f9088f9d2\
         &scope=openid%20offline&id_token_hint=TOKEN&state=STATE&nonce=NONCE"
    );
}

#[test]
fn redirect_values_are_percent_decoded() {
    let url = "https://example.test/cb?code=a%20b%2Fc&state=S%21";
    assert_eq!(parse_redirect_url(url, "S!").unwrap().code, "a b/c");
}

#[test]
fn redirect_without_query_is_invalid() {
    assert_eq!(
        parse_redirect_url("https://example.test/cb", "S").unwrap_err(),
        AuthError::InvalidRedirect
    );
}

#[test]
fn redirect_without_state_is_invalid_even_with_code() {
    assert_eq!(
        parse_redirect_url("https://example.test/cb?code=abc", "S").unwrap_err(),
        AuthError::InvalidRedirect
    );
}

#[test]
fn redirect_with_state_but_no_code_is_invalid() {
    assert_eq!(
        parse_redirect_url("https://example.test/cb?state=S", "S").unwrap_err(),
        AuthError::InvalidRedirect
    );
}

#[test]
fn later_parameter_overrides_earlier_one() {
    let url = "https://example.test/cb?code=first&state=S&code=second";
    assert_eq!(parse_redirect_url(url, "S").unwrap().code, "second");
}

#[test]
fn consent_redirect_without_id_token_is_invalid() {
    let url = "http://localhost/#code=abc&state=S";
    assert_eq!(
        parse_consent_redirect(url, "S").unwrap_err(),
        AuthError::InvalidRedirect
    );
}

#[test]
fn random_string_draws_from_alphabet() {
    let s = random_string(50, "xy");
    assert_eq!(s.chars().count(), 50);
    assert!(s.chars().all(|c| c == 'x' || c == 'y'));
}

#[test]
fn login_exchange_hands_on_code_and_verifier() {
    let (flow, _) = LoginFlow::start();
    let (state, verifier) = match &flow {
        LoginFlow::AwaitingLogin { pkce, state } => (state.clone(), pkce.verifier.clone()),
        LoginFlow::AwaitingConsent { .. } => panic!("fresh flow awaits login"),
    };
    let url = format!("https://example.test/cb?code=the-code&state={state}");
    let exchange = flow.login_exchange(&url).unwrap();
    assert_eq!(exchange.code, "the-code");
    assert_eq!(exchange.verifier, verifier);
}

#[test]
fn after_code_exchange_awaits_consent_with_refresh_token() {
    let tokens = TokenResponse {
        id_token: "ID.TOKEN.SIG".into(),
        access_token: "access".into(),
        refresh_token: "refresh".into(),
        expires_in: 3600,
    };
    let (flow, url) = LoginFlow::after_code_exchange(&tokens);
    match &flow {
        LoginFlow::AwaitingConsent {
            refresh_token,
            consent_state,
        } => {
            assert_eq!(refresh_token, "refresh");
            assert_eq!(consent_state.len(), STATE_LENGTH);
            assert!(url.contains(&format!("&state={consent_state}&nonce=")));
        }
        LoginFlow::AwaitingLogin { .. } => panic!("should await consent"),
    }
    assert!(url.contains("&id_token_hint=ID.TOKEN.SIG&"));
    assert_eq!(flow.describe(), "LoginFlow::AwaitingConsent(..)");
}

#[test]
fn consent_exchange_yields_code_token_and_refresh_token() {
    let flow = LoginFlow::AwaitingConsent {
        refresh_token: "keep-me".into(),
        consent_state: "CS".into(),
    };
    let step = flow
        .consent_exchange("http://localhost/#code=c1&id_token=t1&state=CS")
        .unwrap();
    assert_eq!(step.refresh_token, "keep-me");
    assert_eq!(step.consent.code, "c1");
    assert_eq!(step.consent.id_token, "t1");
}

#[test]
fn consent_exchange_reports_state_mismatch() {
    let flow = LoginFlow::AwaitingConsent {
        refresh_token: "r".into(),
        consent_state: "CS".into(),
    };
    let result = flow.consent_exchange("http://localhost/#code=c1&id_token=t1&state=other");
    assert_eq!(
        result.unwrap_err(),
        LoginFlowError::Auth(AuthError::StateMismatch)
    );
}

#[test]
fn token_forms_and_endpoints() {
    assert_eq!(token_url(), "https://account.jagex.com/oauth2/token");
    assert_eq!(session_url(), "https://auth.jagex.com/game-session/v1/sessions");
    let form = authorization_code_form("C", "V", "R");
    let expected: Vec<(String, String)> = vec![
        ("grant_type".into(), "authorization_code".into()),
        ("client_id".into(), CLIENT_ID.into()),
        ("code".into(), "C".into()),
        ("code_verifier".into(), "V".into()),
        ("redirect_uri".into(), "R".into()),
    ];
    assert_eq!(form, expected);
    let refresh = refresh_token_form("T");
    let expected: Vec<(String, String)> = vec![
        ("grant_type".into(), "refresh_token".into()),
        ("client_id".into(), CLIENT_ID.into()),
        ("refresh_token".into(), "T".into()),
    ];
    assert_eq!(refresh, expected);
}

#[test]
fn login_errors_describe_themselves() {
    assert_eq!(
        LoginFlowError::WrongStep.message(),
        "this method isn't valid for the login flow's current step"
    );
    assert_eq!(
        LoginFlowError::Auth(AuthError::StateMismatch).message(),
        "redirect state does not match the state sent in the authorize request (possible CSRF)"
    );
    assert_eq!(
        AuthError::InvalidRedirect.message(),
        "redirect URL is missing a code or state parameter"
    );
    assert_eq!(AuthError::InvalidIdToken.message(), "invalid or malformed id_token");
}

#[test]
fn claims_come_from_the_body_part_only() {
    let body = base64::Engine::encode(
        &base64::engine::general_purpose::URL_SAFE_NO_PAD,
        br#"{"sub":"abc123"}"#,
    );
    let header = base64::Engine::encode(
        &base64::engine::general_purpose::URL_SAFE_NO_PAD,
        br#"{"alg":"RS256"}"#,
    );
    let a = decode_id_token_claims(&format!("{header}.{body}.sig1")).unwrap();
    let b = decode_id_token_claims(&format!("{header}.{body}.sig2")).unwrap();
    let c = decode_id_token_claims(&format!("other.{body}")).unwrap();
    assert_eq!(a, b);
    assert_eq!(a, c);
    assert_eq!(a["sub"], "abc123");
    assert!(a.get("alg").is_none());
}

#[test]
fn after_consent_assembles_the_outcome() {
    let flow = LoginFlow::AwaitingConsent {
        refresh_token: "keep".into(),
        consent_state: "CS".into(),
    };
    let step = flow
        .consent_exchange("http://localhost/#code=c&id_token=t&state=CS")
        .unwrap();
    let characters = vec![runeroster_core::characters::Character {
        account_id: "1".into(),
        display_name: "Zezima".into(),
    }];
    let outcome = LoginFlow::after_consent(step, "SESSION".into(), characters.clone());
    assert_eq!(outcome.refresh_token, "keep");
    assert_eq!(outcome.session_id, "SESSION");
    assert_eq!(outcome.characters, characters);
}

#[test]
fn challenge_of_empty_verifier() {
    // SHA-256 of the empty input, base64url without padding.
    assert_eq!(
        code_challenge_s256(""),
        "47DEQpj8HBSa-_TImW-5JCeuQeRkm5NMpJWZG3hSuFU"
    );
}
