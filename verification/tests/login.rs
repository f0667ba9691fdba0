use overslash_api::cookies::{
    auth_cookie, clear_auth_cookie, clear_session_cookie, extract_cookie, handoff_cookie,
    sanitize_next, session_cookie,
};
use overslash_api::error::ApiError;
use overslash_api::login::{
    absolute_redirect_for_org, build_org_redirect, callback_org_slug, callback_redirect_uri,
    check_handoff_origin, check_nonce, cookie_auth_state, effective_org_slug, google_compat_state,
    handoff_next, handoff_redirect, id_token_nonce_ok, id_token_payload, login_cookies, login_state,
    org_app_url, org_slug_cookie_value, parse_callback_state, post_login_cookies, post_login_target,
    preview_handoff_code, scopes_for_provider, split_n, CallbackState,
};

#[test]
fn auth_state_cookies() {
    assert_eq!(
        auth_cookie(None, "oss_auth_nonce", "n1"),
        "oss_auth_nonce=n1; HttpOnly; SameSite=Lax; Path=/auth; Max-Age=600"
    );
    assert_eq!(
        auth_cookie(Some(".app.x.com"), "oss_auth_org", "acme"),
        "oss_auth_org=acme; HttpOnly; SameSite=Lax; Path=/auth; Max-Age=600; Domain=.app.x.com"
    );
    assert_eq!(
        clear_auth_cookie(Some(".app.x.com"), "oss_auth_next"),
        "oss_auth_next=; HttpOnly; SameSite=Lax; Path=/auth; Max-Age=0; Domain=.app.x.com"
    );
    assert_eq!(clear_session_cookie(None), "oss_session=; HttpOnly; SameSite=Lax; Path=/; Max-Age=0");
}

#[test]
fn session_cookies() {
    assert_eq!(
        session_cookie(Some(".x.com"), "jwt"),
        Ok("oss_session=jwt; HttpOnly; SameSite=Lax; Path=/; Max-Age=604800; Domain=.x.com".to_string())
    );
    assert_eq!(
        session_cookie(None, "bad\ntoken"),
        Err(ApiError::Internal("build session cookie: failed to parse header value".into()))
    );
    assert_eq!(
        handoff_cookie("jwt"),
        Ok("oss_session=jwt; HttpOnly; SameSite=Lax; Path=/; Secure; Max-Age=604800".to_string())
    );
}

#[test]
fn next_must_be_a_same_origin_path() {
    assert_eq!(sanitize_next("/oauth/authorize?x=1"), Some("/oauth/authorize?x=1".to_string()));
    assert_eq!(sanitize_next("//evil.com"), None);
    assert_eq!(sanitize_next("https://evil.com"), None);
    assert_eq!(sanitize_next("/a\r\nSet-Cookie: x"), None);
    assert_eq!(sanitize_next(""), None);
}

#[test]
fn cookie_extraction() {
    let h = "a=1; oss_auth_nonce=abc ;oss_auth_org=none; oss_auth_nonce=second";
    assert_eq!(extract_cookie(h, "oss_auth_nonce"), Some("abc".to_string()));
    assert_eq!(extract_cookie(h, "missing"), None);
    assert_eq!(extract_cookie("x=", "x"), Some(String::new()));
}

#[test]
fn oauth_state_round_trip() {
    let s = login_state("google", "n1", None);
    assert_eq!(s, "login:google:n1");
    assert_eq!(
        parse_callback_state(&s, "google", false),
        Ok(CallbackState { nonce: "n1".into(), preview_id: None })
    );
    let id = "67e55044-10b1-426f-9247-bb680e5fe0c8";
    let p = login_state("github", "n2", Some(id));
    assert_eq!(
        parse_callback_state(&p, "github", true),
        Ok(CallbackState { nonce: "n2".into(), preview_id: Some(0x67e5504410b1426f9247bb680e5fe0c8) })
    );
}

#[test]
fn oauth_state_refusals() {
    let bad = Err(ApiError::BadRequest("invalid state parameter".into()));
    assert_eq!(parse_callback_state("nope:google:n", "google", false), bad);
    assert_eq!(parse_callback_state("login:google", "google", false), bad);
    assert_eq!(parse_callback_state("login:google:n:67e55044-10b1-426f-9247-bb680e5fe0c8", "google", false), bad);
    assert_eq!(parse_callback_state("login:google:n:not-a-uuid", "google", true), bad);
    assert_eq!(
        parse_callback_state("login:github:n", "google", false),
        Err(ApiError::BadRequest("provider mismatch in state".into()))
    );
}

#[test]
fn splitn_keeps_rest_in_last_piece() {
    let s: Vec<char> = "a:b:c:d:e".chars().collect();
    let parts: Vec<String> = split_n(&s, 4, ':').iter().map(|p| p.iter().collect()).collect();
    assert_eq!(parts, vec!["a", "b", "c", "d:e"]);
}

#[test]
fn legacy_google_state() {
    assert_eq!(google_compat_state("login:abc"), "login:google:abc");
    assert_eq!(google_compat_state("login:google:abc"), "login:google:abc");
    assert_eq!(google_compat_state("other"), "other");
}

#[test]
fn org_resolution() {
    assert_eq!(effective_org_slug(Some("acme"), None), Ok(Some("acme".into())));
    assert_eq!(effective_org_slug(Some("acme"), Some("acme")), Ok(Some("acme".into())));
    assert_eq!(
        effective_org_slug(Some("acme"), Some("evil")),
        Err(ApiError::BadRequest("org param does not match subdomain".into()))
    );
    assert_eq!(effective_org_slug(None, Some("q")), Ok(Some("q".into())));
    assert_eq!(effective_org_slug(None, None), Ok(None));
    assert_eq!(org_slug_cookie_value(Some("acme-co.1_x")), "acme-co.1_x");
    assert_eq!(org_slug_cookie_value(Some("a;b")), "none");
    assert_eq!(org_slug_cookie_value(Some("")), "none");
    assert_eq!(org_slug_cookie_value(None), "none");
    assert_eq!(callback_org_slug(Some("sub"), Some("state".into())), Some("sub".into()));
    assert_eq!(callback_org_slug(None, Some("state".into())), Some("state".into()));
}

#[test]
fn login_cookie_set() {
    let cs = login_cookies(None, "n", None, "none", Some("/next"));
    assert_eq!(cs.len(), 4);
    assert_eq!(cs[1], "oss_auth_verifier=none; HttpOnly; SameSite=Lax; Path=/auth; Max-Age=600");
    assert_eq!(cs[3], "oss_auth_next=/next; HttpOnly; SameSite=Lax; Path=/auth; Max-Age=600");
    assert_eq!(login_cookies(None, "n", Some("v"), "o", None).len(), 3);
}

#[test]
fn callback_cookie_state() {
    let st = cookie_auth_state(Some("oss_auth_nonce=n; oss_auth_verifier=none; oss_auth_org=acme; oss_auth_next=//x")).unwrap();
    assert_eq!(st.nonce, "n");
    assert_eq!(st.verifier, None);
    assert_eq!(st.org_slug, Some("acme".into()));
    assert_eq!(st.next, None);
    assert_eq!(
        cookie_auth_state(Some("a=b")),
        Err(ApiError::BadRequest("missing auth nonce cookie".into()))
    );
    assert_eq!(cookie_auth_state(None), Err(ApiError::BadRequest("missing auth nonce cookie".into())));
    assert_eq!(check_nonce("a", "a"), Ok(()));
    assert_eq!(check_nonce("a", "b"), Err(ApiError::BadRequest("nonce mismatch".into())));
}

#[test]
fn provider_scopes() {
    assert_eq!(scopes_for_provider("github"), vec!["read:user", "user:email"]);
    assert_eq!(scopes_for_provider("google"), vec!["openid", "email", "profile"]);
    assert_eq!(scopes_for_provider("okta"), vec!["openid", "email", "profile"]);
    assert_eq!(callback_redirect_uri("https://api.x.com", "google"), "https://api.x.com/auth/callback/google");
}

#[test]
fn org_urls() {
    assert_eq!(
        org_app_url(Some("app.x.com"), "https://api.x.com", "acme", "dash"),
        Some("https://acme.app.x.com/dash".to_string())
    );
    assert_eq!(
        org_app_url(Some("app.localhost"), "http://127.0.0.1:8123", "acme", "/"),
        Some("http://acme.app.localhost:8123/".to_string())
    );
    assert_eq!(org_app_url(None, "https://api.x.com", "acme", "/"), None);
    assert_eq!(
        absolute_redirect_for_org(Some("app.x.com"), "https://api.x.com", Some("oss_auth_org=acme"), "/home"),
        "https://acme.app.x.com/home"
    );
    assert_eq!(
        absolute_redirect_for_org(Some("app.x.com"), "https://api.x.com", Some("oss_auth_org=none"), "/home"),
        "/home"
    );
    assert_eq!(build_org_redirect(Some("app.x.com"), "https://api.x.com", true, "p", "/d"), "https://app.x.com/");
    assert_eq!(build_org_redirect(Some("app.x.com"), "http://api", false, "acme", "/d"), "http://acme.app.x.com/");
    assert_eq!(build_org_redirect(None, "http://api", false, "acme", "/d"), "/d");
}

#[test]
fn completed_login() {
    let cs = post_login_cookies(None, "jwt").unwrap();
    assert_eq!(cs.len(), 5);
    assert_eq!(cs[0], "oss_session=jwt; HttpOnly; SameSite=Lax; Path=/; Max-Age=604800");
    assert_eq!(cs[4], "oss_auth_next=; HttpOnly; SameSite=Lax; Path=/auth; Max-Age=0");
    assert_eq!(post_login_target(None, "https://dash", None, "https://api", None), "https://dash");
    assert_eq!(post_login_target(Some("/n".into()), "https://dash", None, "https://api", None), "/n");
}

#[test]
fn preview_handoff() {
    let code = preview_handoff_code();
    assert_eq!(code.len(), 64);
    assert!(code.chars().all(|c| c.is_ascii_hexdigit() && !c.is_ascii_uppercase()));
    assert_eq!(
        handoff_redirect("https://p.vercel.app/", "a b"),
        "https://p.vercel.app/auth/handoff?code=a%20b"
    );
    assert_eq!(handoff_next(Some("/x")), "/x");
    assert_eq!(handoff_next(Some("//x")), "/");
    assert_eq!(handoff_next(None), "/");
    assert_eq!(check_handoff_origin("p.vercel.app", "https://P.Vercel.app/", true), Ok(()));
    assert_eq!(
        check_handoff_origin("q.vercel.app", "https://p.vercel.app", true),
        Err(ApiError::BadRequest("handoff origin mismatch".into()))
    );
    assert_eq!(
        check_handoff_origin("p.vercel.app", "https://p.vercel.app", false),
        Err(ApiError::Forbidden("preview origin not in allowlist".into()))
    );
    assert_eq!(check_handoff_origin("x", "not a url", true).unwrap_err().status(), 500);
}

#[test]
fn id_tokens() {
    // {"nonce":"n"} in base64url without padding.
    assert_eq!(id_token_payload("h.eyJub25jZSI6Im4ifQ.s"), Some(br#"{"nonce":"n"}"#.to_vec()));
    assert_eq!(id_token_payload("no-dots"), None);
    assert_eq!(id_token_payload("h.!!!.s"), None);
    assert!(id_token_nonce_ok(Some("a"), None));
    assert!(id_token_nonce_ok(Some("a"), Some("a")));
    assert!(!id_token_nonce_ok(Some("a"), Some("b")));
    assert!(id_token_nonce_ok(None, Some("b")));
}
