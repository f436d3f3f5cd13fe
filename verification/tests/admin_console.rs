use coding_tools::admin::{
    account_configured, check_login, reset_admin_account, setup_account, AdminAccount, LoginRefusal,
    clear_session_cookie, hash_password, session_cookie, token_from_cookie_header,
    validate_credentials, verify_password, AdminCredentials, AdminSessionStore,
    ADMIN_SESSION_COOKIE,
};
use coding_tools::rpc::{
    arg_str, ensure_gateway_stopped, has_token, is_gateway_shared_key, parse_rpc_command,
    plan_secret_update, regenerate_restarts_gateway, shared_key, RpcCommand,
};
use coding_tools::web::{
    content_type, is_public_web_path, request_relative_path, safe_relative_path, static_target,
};

#[test]
fn static_path_rejects_parent_traversal() {
    assert!(safe_relative_path("../data/profiles.json").is_none());
    assert!(safe_relative_path("_app/app.js").is_some());
}

#[test]
fn only_login_and_static_assets_are_public_web_paths() {
    assert!(is_public_web_path("login"));
    assert!(is_public_web_path("_app/immutable/app.js"));
    assert!(is_public_web_path("favicon.ico"));
    assert!(!is_public_web_path(""));
    assert!(!is_public_web_path("activity"));
    assert!(!is_public_web_path("settings/gateway"));
}

#[test]
fn password_hash_round_trip() {
    let hash = hash_password("correct horse battery staple").expect("hash");
    assert_ne!(hash, "correct horse battery staple");
    assert!(verify_password("correct horse battery staple", &hash));
    assert!(!verify_password("wrong-password", &hash));
}

#[test]
fn session_cookie_authenticates_and_can_be_revoked() {
    let mut store = AdminSessionStore::default();
    let token = store.create();
    let header = format!("{ADMIN_SESSION_COOKIE}={token}");
    assert!(store.is_authenticated(Some(&header)));
    store.revoke_from_headers(Some(&header));
    assert!(!store.is_authenticated(Some(&header)));
}

#[test]
fn session_expires_after_twelve_hours() {
    let mut store = AdminSessionStore::new();
    let token = store.create_at("abc".to_string(), 1_000);
    let header = format!("coding_tools_admin_session={token}");
    assert!(store.is_authenticated_at(Some(&header), 1_000 + 43_199));
    assert!(!store.is_authenticated_at(Some(&header), 1_000 + 43_200));
    // The expired session was pruned: even an earlier clock no longer sees it.
    assert!(!store.is_authenticated_at(Some(&header), 1_000));
}

#[test]
fn created_token_is_64_hex_digits() {
    let mut store = AdminSessionStore::new();
    let token = store.create();
    assert_eq!(token.len(), 64);
    assert!(token.chars().all(|c| c.is_ascii_hexdigit() && !c.is_ascii_uppercase()));
}

#[test]
fn cookie_token_is_found_among_other_cookies() {
    assert_eq!(
        token_from_cookie_header("theme=dark; coding_tools_admin_session=tok123 ; x=1").as_deref(),
        Some("tok123")
    );
    assert_eq!(token_from_cookie_header("coding_tools_admin_session="), None);
    assert_eq!(token_from_cookie_header("other=abc"), None);
    assert!(!AdminSessionStore::new().is_authenticated_at(None, 5));
}

#[test]
fn session_cookies_are_rendered() {
    assert_eq!(
        session_cookie("t0k"),
        "coding_tools_admin_session=t0k; Path=/; HttpOnly; SameSite=Strict; Max-Age=43200"
    );
    assert_eq!(
        clear_session_cookie(),
        "coding_tools_admin_session=; Path=/; HttpOnly; SameSite=Strict; Max-Age=0"
    );
}

#[test]
fn credentials_are_validated() {
    let ok = AdminCredentials { username: " admin ".into(), password: "12345678".into() };
    assert!(validate_credentials(&ok).is_ok());
    let short_name = AdminCredentials { username: " ab ".into(), password: "12345678".into() };
    assert_eq!(validate_credentials(&short_name).unwrap_err(), "管理员用户名长度需为 3-64 个字符");
    let long_name = AdminCredentials { username: "x".repeat(65), password: "12345678".into() };
    assert!(validate_credentials(&long_name).is_err());
    // 22 CJK characters take 66 bytes: too long as bytes.
    let wide_name = AdminCredentials { username: "管".repeat(22), password: "12345678".into() };
    assert!(validate_credentials(&wide_name).is_err());
    let short_password = AdminCredentials { username: "admin".into(), password: "密码密码密码密".into() };
    assert_eq!(validate_credentials(&short_password).unwrap_err(), "管理员密码至少需要 8 个字符");
}

#[test]
fn static_requests_resolve_under_the_web_root() {
    assert_eq!(request_relative_path("///settings/gateway"), "settings/gateway");
    assert_eq!(static_target("").as_deref(), Some("index.html"));
    assert_eq!(static_target("a/../../b"), None);
    assert_eq!(static_target("/etc/passwd"), None);
    assert_eq!(static_target("_app/x..y/z.js").as_deref(), Some("_app/x..y/z.js"));
}

#[test]
fn content_types_follow_the_extension() {
    assert_eq!(content_type("/srv/web/index.html"), "text/html; charset=utf-8");
    assert_eq!(content_type("/srv/web/_app/a.b.js"), "text/javascript; charset=utf-8");
    assert_eq!(content_type("/srv/web/photo.jpeg"), "image/jpeg");
    assert_eq!(content_type("/srv/web/font.woff2"), "font/woff2");
    assert_eq!(content_type("/srv/web/.hidden"), "application/octet-stream");
    assert_eq!(content_type("/srv/web/dir/"), "application/octet-stream");
    assert_eq!(content_type("/srv/web/style.css/."), "text/css; charset=utf-8");
}

#[test]
fn rpc_commands_and_secret_rules() {
    assert!(parse_rpc_command("list_workspaces").unwrap() == RpcCommand::ListWorkspaces);
    assert!(parse_rpc_command("regenerate_shared_secret").unwrap() == RpcCommand::RegenerateSharedSecret);
    assert_eq!(parse_rpc_command("reboot").unwrap_err(), "Web Admin 尚未迁移命令: reboot");
    assert_eq!(arg_str(Some("  w1 "), "id").unwrap(), "w1");
    assert_eq!(arg_str(Some("   "), "id").unwrap_err(), "缺少参数: id");
    assert_eq!(shared_key(Some(" bearer_token ")).unwrap(), "bearer_token");
    assert_eq!(shared_key(Some("nope")).unwrap_err(), "invalid shared key: nope");
    assert_eq!(shared_key(None).unwrap_err(), "缺少参数: key");
    assert!(is_gateway_shared_key("oauth_password"));
    assert!(!is_gateway_shared_key("gateway_frp_token"));
    assert!(ensure_gateway_stopped(false).is_ok());
    assert!(ensure_gateway_stopped(true).is_err());
    let same = plan_secret_update(Some("v"), "v", "bearer_token", true);
    assert!(!same.write && !same.restart_gateway);
    let changed = plan_secret_update(Some("v"), "w", "bearer_token", true);
    assert!(changed.write && changed.restart_gateway);
    let other = plan_secret_update(None, "w", "actions_api_key", true);
    assert!(other.write && !other.restart_gateway);
    assert!(regenerate_restarts_gateway("bearer_token", true));
    assert!(!regenerate_restarts_gateway("bearer_token", false));
    assert!(has_token(Some(" t ")));
    assert!(!has_token(Some("  ")));
    assert!(!has_token(None));
}

fn creds(u: &str, p: &str) -> AdminCredentials {
    AdminCredentials { username: u.to_string(), password: p.to_string() }
}

#[test]
fn setup_stores_trimmed_username_and_hash_then_login_accepts() {
    let empty = AdminAccount { username: String::new(), password_hash: String::new() };
    assert!(!account_configured(&empty));
    let c = creds("  operator ", "long enough password");
    let hash = hash_password(&c.password).expect("hash");
    let account = setup_account(&empty, &c, hash.clone()).expect("setup");
    assert_eq!(account.username, "operator");
    assert_eq!(account.password_hash, hash);
    assert!(!account.password_hash.contains("long enough password"));
    assert!(account_configured(&account));
    assert_eq!(check_login(&account, &creds("operator", "long enough password")), Ok(()));
    assert_eq!(check_login(&account, &creds(" operator ", "long enough password")), Ok(()));
    assert_eq!(
        check_login(&account, &creds("operator", "wrong password!")),
        Err(LoginRefusal::BadCredentials)
    );
    assert_eq!(
        check_login(&account, &creds("someone", "long enough password")),
        Err(LoginRefusal::BadCredentials)
    );
    assert_eq!(
        setup_account(&account, &c, "other".to_string()).err(),
        Some("管理员已完成初始化，请直接登录".to_string())
    );
}

#[test]
fn admin_reset_restores_default_username_and_requires_setup() {
    let reset = reset_admin_account();
    assert_eq!(reset.username, "admin");
    assert_eq!(reset.password_hash, "");
    assert!(!account_configured(&reset));
    assert_eq!(check_login(&reset, &creds("admin", "anything at all")), Err(LoginRefusal::NotConfigured));
    let blank = AdminAccount { username: "admin".to_string(), password_hash: "   ".to_string() };
    assert!(!account_configured(&blank));
}

#[test]
fn hashing_succeeds_for_ordinary_passwords() {
    for password in ["", "short", "correct horse battery staple", "密码很长很长很长"] {
        let hash = hash_password(password).expect("hash");
        assert!(hash.starts_with("$argon2id$v=19$"));
        assert!(verify_password(password, &hash));
    }
}

#[test]
fn session_survives_other_sessions_until_its_expiry() {
    let mut store = AdminSessionStore::new();
    let token = store.create_at("mine".to_string(), 1_000);
    let other = store.create_at("theirs".to_string(), 2_000);
    let header = format!("coding_tools_admin_session={token}");
    let other_header = format!("coding_tools_admin_session={other}");
    assert!(store.is_authenticated_at(Some(&other_header), 30_000));
    store.revoke_from_headers(Some(&other_header));
    assert!(!store.is_authenticated_at(Some(&other_header), 30_000));
    assert!(store.is_authenticated_at(Some(&header), 44_199));
    assert!(!store.is_authenticated_at(Some(&header), 44_200));
}
