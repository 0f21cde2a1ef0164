//! Signing in.
use base64::Engine;
use sha2::{Digest, Sha256};

use tinymcp::bus::{CommandKind, InstalledServer, Transport};
use tinymcp::env::EnvMap;
use tinymcp::error::Error;
use tinymcp::json::Json;
use tinymcp::registry::oauth::detect::{begin_detect, AuthDetection, AuthKind, AuthProbe, DetectStep};
use tinymcp::transport::http::headers::check_status;
use tinymcp::registry::oauth::flow::{OAuthFlow, PendingSignIn};
use tinymcp::registry::oauth::pkce::{challenge_of, generate_pkce, pkce_from};
use tinymcp::registry::oauth::tokens::{
    begin_refresh, OAuthBundle, RefreshStep, TokenResponse, AUTHORIZATION_KEY, OAUTH_BUNDLE_KEY,
};

#[test]
fn a_pkce_challenge_is_the_sha256_of_its_verifier() {
    let (verifier, challenge) = generate_pkce();

    let expected = base64::engine::general_purpose::URL_SAFE_NO_PAD
        .encode(Sha256::digest(verifier.as_bytes()));
    assert_eq!(challenge, expected);
}

#[test]
fn a_known_verifier_has_its_known_challenge() {
    assert_eq!(
        challenge_of("dBjftJeZ4CVP-mB92K27uhbUJU1p1r_wW1gFWFOEjXk"),
        "E9Melhoa2OwvFrEMTJguCHaoeK1t8URWbuGJSstw-cM"
    );
    let (verifier, challenge) = pkce_from("dBjftJeZ4CVP-mB92K27", "uhbUJU1p1r_wW1gFWFOEjXk");
    assert_eq!(verifier, "dBjftJeZ4CVP-mB92K27uhbUJU1p1r_wW1gFWFOEjXk");
    assert_eq!(challenge, "E9Melhoa2OwvFrEMTJguCHaoeK1t8URWbuGJSstw-cM");
}

#[test]
fn a_pkce_verifier_is_within_the_length_the_specification_requires() {
    let (verifier, _) = generate_pkce();
    assert!((43..=128).contains(&verifier.len()), "{} characters", verifier.len());
}

#[test]
fn two_pkce_pairs_differ() {
    let (first, _) = generate_pkce();
    let (second, _) = generate_pkce();
    assert_ne!(first, second);
}

fn object(members: Vec<(&str, Json)>) -> Json {
    Json::object(members.into_iter().map(|(name, value)| (name.to_string(), value)).collect())
}

#[test]
fn a_token_response_reads_every_field() {
    let parsed = TokenResponse::parse(&object(vec![
        ("access_token", Json::text("a")),
        ("refresh_token", Json::text("r")),
        ("expires_in", Json::Number("3600".to_string())),
    ]))
    .unwrap();

    assert_eq!(parsed.access_token, "a");
    assert_eq!(parsed.refresh_token.as_deref(), Some("r"));
    assert_eq!(parsed.expires_in, Some(3600));
}

#[test]
fn a_token_response_needs_only_an_access_token() {
    let parsed = TokenResponse::parse(&object(vec![("access_token", Json::text("x"))])).unwrap();

    assert_eq!(parsed.access_token, "x");
    assert_eq!(parsed.refresh_token, None);
    assert_eq!(parsed.expires_in, None);
}

#[test]
fn a_token_response_without_an_access_token_is_rejected() {
    let error = TokenResponse::parse(&object(vec![("token_type", Json::text("bearer"))]))
        .expect_err("no access token");
    assert!(matches!(error, Error::MalformedResponse { .. }), "{error:?}");
}

#[test]
fn a_span_that_is_no_whole_number_is_not_known() {
    for written in ["1.5", "-3", "99999999999999999999"] {
        let parsed = TokenResponse::parse(&object(vec![
            ("access_token", Json::text("x")),
            ("expires_in", Json::Number(written.to_string())),
        ]))
        .unwrap();
        assert_eq!(parsed.expires_in, None, "for {written}");
    }
}

#[test]
fn the_bundle_key_is_marked_internal() {
    assert!(OAUTH_BUNDLE_KEY.starts_with("__"), "{OAUTH_BUNDLE_KEY}");
}

fn install(transport: Transport) -> InstalledServer {
    InstalledServer {
        server_id: "srv-1".to_string(),
        qualified_name: "@test/remote".to_string(),
        display_name: "Remote".to_string(),
        description: None,
        icon_url: None,
        command_kind: CommandKind::Node,
        command: String::new(),
        args: Vec::new(),
        env_keys: Vec::new(),
        config: None,
        installed_at: 1_000,
        last_connected_at: None,
        transport,
        enabled: true,
    }
}

/// Detection of `srv-1`, answered with this record.
fn looked_up(reply: Result<InstalledServer, Error>) -> DetectStep {
    match begin_detect(" srv-1 ") {
        DetectStep::ReadInstall(s) => {
            assert_eq!(s.server_id, "srv-1");
            s.read(reply)
        }
        other => panic!("{other:?}"),
    }
}

fn detected(probe: AuthProbe) -> AuthDetection {
    let remote = Transport::HttpRemote { url: "https://api.test/mcp".to_string() };
    match looked_up(Ok(install(remote))) {
        DetectStep::Probe(s) => {
            assert_eq!(s.url, "https://api.test/mcp");
            match s.probed(probe) {
                DetectStep::Done(Ok(detection)) => detection,
                other => panic!("{other:?}"),
            }
        }
        other => panic!("{other:?}"),
    }
}

#[test]
fn a_subprocess_install_needs_no_http_authorization() {
    match looked_up(Ok(install(Transport::Stdio))) {
        DetectStep::Done(Ok(detection)) => assert_eq!(detection.kind, AuthKind::Open),
        other => panic!("{other:?}"),
    }
}

#[test]
fn a_store_failure_is_reported_rather_than_read_as_an_open_server() {
    match looked_up(Err(Error::UnknownServer { server: "absent".to_string() })) {
        DetectStep::Done(Err(error)) => {
            assert!(matches!(error, Error::UnknownServer { .. }), "{error:?}");
        }
        other => panic!("{other:?}"),
    }
}

#[test]
fn a_server_that_does_not_challenge_is_reported_as_open() {
    assert_eq!(detected(AuthProbe::Open).kind, AuthKind::Open);
}

#[test]
fn a_bare_401_is_reported_as_wanting_a_static_token() {
    let detection = detected(AuthProbe::Challenged { authorization_endpoint: None });
    assert_eq!(detection.kind, AuthKind::Token);
    assert_eq!(detection.authorization_endpoint, None);
}

#[test]
fn an_unreachable_server_is_reported_as_wanting_a_static_token() {
    assert_eq!(detected(AuthProbe::Unreachable).kind, AuthKind::Token);
}

#[test]
fn a_server_with_an_authorization_server_wants_a_sign_in() {
    let endpoint = Some("https://auth.test/authorize".to_string());
    let detection = detected(AuthProbe::Challenged { authorization_endpoint: endpoint.clone() });
    assert_eq!(detection.kind, AuthKind::OAuth);
    assert_eq!(detection.authorization_endpoint, endpoint);
}

fn pending(server_id: &str) -> PendingSignIn {
    PendingSignIn {
        server_id: server_id.to_string(),
        verifier: "v".to_string(),
        redirect_uri: "http://127.0.0.1/".to_string(),
        token_endpoint: "https://auth.test/token".to_string(),
        client_id: "cli-1".to_string(),
        client_secret: Some("sec-1".to_string()),
    }
}

#[test]
fn completing_with_an_unknown_state_is_refused() {
    let mut flow = OAuthFlow::new();
    let error = flow.take("never-issued").expect_err("an unknown state");

    assert!(matches!(error, Error::MalformedResponse { .. }), "{error:?}");
}

#[test]
fn a_fresh_flow_has_nothing_parked() {
    assert_eq!(OAuthFlow::new().pending_count(), 0);
}

#[test]
fn a_state_is_good_for_one_sign_in() {
    let mut flow = OAuthFlow::new();
    flow.park("s1".to_string(), pending("srv-1"));
    flow.park("s2".to_string(), pending("srv-2"));
    assert_eq!(flow.pending_count(), 2);

    assert_eq!(flow.take("s1"), Ok(pending("srv-1")));
    assert!(flow.take("s1").is_err());
    assert_eq!(flow.pending_count(), 1);
    assert_eq!(flow.take("s2"), Ok(pending("srv-2")));
}

fn bundle(refresh_token: Option<&str>, expires_at: Option<u64>) -> OAuthBundle {
    OAuthBundle {
        refresh_token: refresh_token.map(str::to_string),
        client_id: "cli-1".to_string(),
        client_secret: Some("sec-1".to_string()),
        token_endpoint: "https://auth.test/token".to_string(),
        expires_at,
    }
}

fn credentials() -> EnvMap {
    let mut env = EnvMap::new();
    env.insert("Authorization".to_string(), "Bearer stale".to_string());
    env.insert(OAUTH_BUNDLE_KEY.to_string(), "the bundle".to_string());
    env.insert("X-Custom".to_string(), "kept".to_string());
    env
}

fn decided(reply: Result<OAuthBundle, String>, now: u64) -> RefreshStep {
    match begin_refresh(Ok(credentials())) {
        RefreshStep::DecodeBundle(s) => {
            assert_eq!(s.text, "the bundle");
            s.decoded(reply, now)
        }
        other => panic!("{other:?}"),
    }
}

#[test]
fn a_server_with_no_bundle_is_left_alone() {
    assert!(matches!(begin_refresh(Ok(EnvMap::new())), RefreshStep::Done(Ok(false))));
    assert!(matches!(
        begin_refresh(Err(Error::MissingAuthChallenge)),
        RefreshStep::Done(Err(Error::MissingAuthChallenge))
    ));
}

#[test]
fn a_token_that_is_still_valid_is_not_refreshed() {
    assert!(matches!(decided(Ok(bundle(Some("r"), Some(86_400))), 86_399), RefreshStep::Done(Ok(false))));
    assert!(matches!(decided(Ok(bundle(Some("r"), None)), 1), RefreshStep::Done(Ok(false))));
}

#[test]
fn a_bundle_with_no_refresh_token_cannot_refresh_and_says_so_quietly() {
    assert!(matches!(decided(Ok(bundle(None, Some(1))), 100), RefreshStep::Done(Ok(false))));
}

#[test]
fn a_corrupt_bundle_is_reported_rather_than_ignored() {
    match decided(Err("expected value".to_string()), 100) {
        RefreshStep::Done(Err(error)) => {
            assert!(matches!(error, Error::MalformedResponse { .. }), "{error:?}");
            assert!(error.message().ends_with("does not decode: expected value"));
        }
        other => panic!("{other:?}"),
    }
}

#[test]
fn a_refresh_sends_the_grant_the_token_and_the_client_credentials() {
    match decided(Ok(bundle(Some("r1"), Some(1))), 100) {
        RefreshStep::Exchange(s) => {
            assert_eq!(s.bundle.token_endpoint, "https://auth.test/token");
            let form: Vec<(&str, &str)> =
                s.form.iter().map(|(name, value)| (name.as_str(), value.as_str())).collect();
            assert_eq!(
                form,
                [
                    ("grant_type", "refresh_token"),
                    ("refresh_token", "r1"),
                    ("client_id", "cli-1"),
                    ("client_secret", "sec-1"),
                ]
            );
        }
        other => panic!("{other:?}"),
    }
}

/// Runs a refresh that the token endpoint answers with `token`: the bundle
/// that is stored, the credentials, and their names.
fn refreshed(token: TokenResponse) -> (OAuthBundle, EnvMap, Vec<String>) {
    let exchange = match decided(Ok(bundle(Some("r1"), Some(1))), 100) {
        RefreshStep::Exchange(s) => s,
        other => panic!("{other:?}"),
    };
    let encode = match exchange.exchanged(Ok(token)) {
        RefreshStep::EncodeBundle(s) => s,
        other => panic!("{other:?}"),
    };
    let next = OAuthBundle {
        refresh_token: encode.bundle.refresh_token.clone(),
        client_id: encode.bundle.client_id.clone(),
        client_secret: encode.bundle.client_secret.clone(),
        token_endpoint: encode.bundle.token_endpoint.clone(),
        expires_at: encode.bundle.expires_at,
    };
    let store = match encode.encoded("encoded".to_string()) {
        RefreshStep::StoreEnv(s) => s,
        other => panic!("{other:?}"),
    };
    let env = store.env.clone();
    let names = match store.stored(Ok(())) {
        RefreshStep::StoreNames(s) => s,
        other => panic!("{other:?}"),
    };
    let listed = names.names.clone();
    assert!(matches!(names.stored(Ok(())), RefreshStep::Done(Ok(true))));
    (next, env, listed)
}

fn token(refresh_token: Option<&str>, expires_in: Option<u64>) -> TokenResponse {
    TokenResponse {
        access_token: "fresh".to_string(),
        refresh_token: refresh_token.map(str::to_string),
        expires_in,
    }
}

#[test]
fn an_expired_token_is_refreshed_and_stored() {
    let (next, env, _) = refreshed(token(Some("r2"), Some(3600)));
    assert_eq!(env.get(AUTHORIZATION_KEY).map(String::as_str), Some("Bearer fresh"));
    assert_eq!(env.get(OAUTH_BUNDLE_KEY).map(String::as_str), Some("encoded"));
    assert_eq!(next, bundle(Some("r2"), Some(3700)));
}

#[test]
fn a_refresh_keeps_the_existing_refresh_token_when_the_server_does_not_rotate_it() {
    let (next, _, _) = refreshed(token(None, None));
    assert_eq!(next, bundle(Some("r1"), None));
}

#[test]
fn an_expiry_past_the_end_of_time_is_the_end_of_time() {
    let (next, _, _) = refreshed(token(None, Some(u64::MAX)));
    assert_eq!(next.expires_at, Some(u64::MAX));
}

#[test]
fn a_refresh_does_not_erase_the_users_other_credentials() {
    let (_, env, _) = refreshed(token(None, None));
    assert_eq!(env.get("X-Custom").map(String::as_str), Some("kept"));
}

#[test]
fn a_refresh_records_the_new_credential_names_on_the_server_row() {
    let (_, _, names) = refreshed(token(None, None));
    assert_eq!(names, ["Authorization", "X-Custom", OAUTH_BUNDLE_KEY]);
}

#[test]
fn a_token_endpoint_failure_carries_the_body_that_explains_it() {
    // `invalid_grant` lives in the body, not the status.
    let reply = check_status(
        "https://auth.test/token",
        400,
        None,
        "{\"error\":\"invalid_grant\"}".to_string(),
    )
    .expect_err("a bad request");
    let error = match decided(Ok(bundle(Some("r1"), Some(1))), 100) {
        RefreshStep::Exchange(s) => match s.exchanged(Err(reply)) {
            RefreshStep::Done(Err(error)) => error,
            other => panic!("{other:?}"),
        },
        other => panic!("{other:?}"),
    };

    match error {
        Error::Http { status, body, .. } => {
            assert_eq!(status, 400);
            assert!(body.contains("invalid_grant"), "{body}");
        }
        other => panic!("expected an http error, got {other:?}"),
    }
}

#[test]
fn a_failed_exchange_is_an_error() {
    match decided(Ok(bundle(Some("r1"), Some(1))), 100) {
        RefreshStep::Exchange(s) => assert!(matches!(
            s.exchanged(Err(Error::MissingAuthChallenge)),
            RefreshStep::Done(Err(Error::MissingAuthChallenge))
        )),
        other => panic!("{other:?}"),
    }
}
