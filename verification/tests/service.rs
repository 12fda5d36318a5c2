use roadmap_cli::auth::{
    access_claims, access_user, authenticate, bearer_token, check_registration, claims_from_fields,
    create_access_token, create_refresh_token, validate_token, generate_user_code, invite_role, is_admin_role,
    open_device_request, refresh_claims, refresh_user, user_code_of, ws_identity, AuditParams, Claims,
    DeviceRequest, DeviceStatus, DeviceStore, JwtConfig, PollResult, RegisterRequest, WsParams, WsRefusal,
};
use roadmap_cli::generate::{man_page_name, GenerateType};
use roadmap_cli::presence::Presence;
use roadmap_cli::update::{
    check_for_update, get_platform_asset_name, is_newer_release, parse_version, select_asset, GitHubAsset,
    GitHubRelease,
};

const SECOND: i64 = 1_000_000_000;
const USER: &str = "67e55044-10b1-426f-9247-bb680e5fe0c8";
const PROJECT: &str = "a0eebc99-9c0b-4ef8-bb6d-6bb9bd380a11";

fn claims(sub: &str, kind: &str) -> Claims {
    Claims { sub: sub.to_string(), email: "ana@example.org".to_string(), exp: 10, iat: 5, token_type: kind.to_string() }
}

fn release(tag: &str) -> GitHubRelease {
    GitHubRelease {
        tag_name: tag.to_string(),
        assets: vec![GitHubAsset {
            name: "roadmap-cli-linux-x86_64.tar.gz".to_string(),
            browser_download_url: "https://example.org/linux.tar.gz".to_string(),
        }],
        html_url: "https://example.org/release".to_string(),
    }
}

#[test]
fn device_flow_gives_the_approved_tokens() {
    let mut store = DeviceStore::new();
    let answer = open_device_request(&mut store, "dev-1".to_string(), "123456".to_string(), 100 * SECOND, None);
    assert_eq!(answer.verification_url, "http://localhost:3000/auth/cli?code=123456");
    assert_eq!((answer.expires_in, answer.interval), (300, 2));
    assert!(matches!(store.poll("dev-1", 101 * SECOND), PollResult::Pending));
    assert!(store.approve("123456", "acc".to_string(), "ref".to_string(), "ana@x".to_string(), "Ana".to_string()));
    match store.poll("dev-1", 102 * SECOND) {
        PollResult::Approved { access_token, refresh_token, user_email, user_name } => {
            assert_eq!(access_token, Some("acc".to_string()));
            assert_eq!(refresh_token, Some("ref".to_string()));
            assert_eq!(user_email, Some("ana@x".to_string()));
            assert_eq!(user_name, Some("Ana".to_string()));
        }
        _ => panic!("the request was approved"),
    }
    assert!(matches!(store.poll("other", 102 * SECOND), PollResult::NotFound));
    assert!(!store.approve("999999", "a".to_string(), "r".to_string(), "e".to_string(), "n".to_string()));
}

#[test]
fn device_requests_expire_after_five_minutes() {
    let mut store = DeviceStore::new();
    open_device_request(&mut store, "dev".to_string(), "111111".to_string(), 0, Some("https://app.example.org"));
    assert!(matches!(store.poll("dev", 300 * SECOND), PollResult::Pending));
    assert!(matches!(store.poll("dev", 301 * SECOND - 1), PollResult::Pending));
    assert!(matches!(store.poll("dev", 301 * SECOND), PollResult::Expired));
    // Polled now, by the clock: opened at the epoch, long expired.
    assert!(matches!(store.poll_now("dev"), PollResult::Expired));
    assert!(matches!(store.poll_now("missing"), PollResult::NotFound));
    open_device_request(&mut store, "later".to_string(), "222222".to_string(), i64::MAX, None);
    assert!(matches!(store.poll_now("later"), PollResult::Pending));
}

#[test]
fn denied_requests_are_told_so() {
    let mut store = DeviceStore::new();
    let answer = open_device_request(&mut store, "d".to_string(), "222222".to_string(), 0, Some("https://app"));
    assert_eq!(answer.verification_url, "https://app/auth/cli?code=222222");
    assert!(store.deny("222222"));
    assert!(!store.deny("333333"));
    assert!(matches!(store.poll("d", SECOND), PollResult::Denied));
    assert_eq!(DeviceStatus::Denied.name(), "denied");
}

#[test]
fn a_new_request_replaces_one_with_the_same_device_code() {
    let mut store = DeviceStore::new();
    open_device_request(&mut store, "same".to_string(), "111111".to_string(), 0, None);
    store.deny("111111");
    store.insert(DeviceRequest {
        device_code: "same".to_string(),
        user_code: "444444".to_string(),
        status: DeviceStatus::Pending,
        access_token: None,
        refresh_token: None,
        user_email: None,
        user_name: None,
        created_at: 0,
    });
    assert_eq!(store.pending.len(), 1);
    assert!(matches!(store.poll("same", SECOND), PollResult::Pending));
}

#[test]
fn user_codes_have_six_digits() {
    assert_eq!(user_code_of(0), "100000");
    assert_eq!(user_code_of(1_234_567), "434567");
    assert_eq!(user_code_of(899_999), "999999");
    let code = generate_user_code();
    assert_eq!(code.len(), 6);
    assert!(code.chars().all(|c| c.is_ascii_digit()));
}

#[test]
fn bearer_tokens_follow_the_prefix() {
    assert_eq!(bearer_token(Some("Bearer abc.def")), Ok("abc.def".to_string()));
    assert_eq!(bearer_token(Some("Basic abc")), Err("Token manquant".to_string()));
    assert_eq!(bearer_token(None), Err("Token manquant".to_string()));
}

#[test]
fn access_needs_an_access_token_for_a_uuid() {
    let user = access_user(claims(USER, "access")).ok().unwrap();
    assert_eq!(user.id, 0x67e5504410b1426f9247bb680e5fe0c8);
    assert_eq!(user.email, "ana@example.org");
    assert_eq!(access_user(claims(USER, "refresh")).err(), Some("Token de type access requis".to_string()));
    assert_eq!(access_user(claims("not-a-uuid", "access")).err(), Some("Token invalide".to_string()));
    assert_eq!(refresh_user(&claims(USER, "refresh")), Ok(0x67e5504410b1426f9247bb680e5fe0c8));
    assert_eq!(refresh_user(&claims(USER, "access")), Err("Token de type refresh requis".to_string()));
    assert_eq!(refresh_user(&claims("x", "refresh")), Err("Token invalide".to_string()));
}

#[test]
fn live_connections_need_a_user_and_a_project() {
    let params = WsParams { token: "t".to_string(), project_id: PROJECT.to_string() };
    let (user, project) = ws_identity(&claims(USER, "access"), &params).ok().unwrap();
    assert_eq!(user, 0x67e5504410b1426f9247bb680e5fe0c8);
    assert_eq!(project, 0xa0eebc999c0b4ef8bb6d6bb9bd380a11);
    assert!(matches!(ws_identity(&claims("bad", "access"), &params), Err(WsRefusal::Unauthorized)));
    let bad_project = WsParams { token: "t".to_string(), project_id: "nope".to_string() };
    assert!(matches!(ws_identity(&claims(USER, "access"), &bad_project), Err(WsRefusal::BadRequest)));
}

#[test]
fn token_claims_last_as_configured() {
    let config = JwtConfig::with_secret(None);
    assert_eq!(config.secret, "roadmap-dev-secret-change-me");
    assert_eq!((config.access_expiry_hours, config.refresh_expiry_days), (1, 30));
    let c = access_claims(USER, "ana@x", 1_000, &config);
    assert_eq!((c.exp, c.iat, c.token_type.as_str()), (4_600, 1_000, "access"));
    let c = refresh_claims(USER, "ana@x", 1_000, &config);
    assert_eq!((c.exp, c.token_type.as_str()), (1_000 + 30 * 86_400, "refresh"));
    assert_eq!(JwtConfig::with_secret(Some("s3".to_string())).secret, "s3");
}

#[test]
fn registrations_need_every_field_and_a_long_password() {
    let req = |e: &str, n: &str, p: &str| RegisterRequest { email: e.to_string(), name: n.to_string(), password: p.to_string() };
    assert_eq!(check_registration(&req("", "Ana", "longpassword")), Err("Tous les champs sont requis".to_string()));
    assert_eq!(
        check_registration(&req("a@x", "Ana", "short")),
        Err("Mot de passe trop court (min 8 caractères)".to_string())
    );
    assert_eq!(check_registration(&req("a@x", "Ana", "ééééé")), Ok(()));
    assert_eq!(check_registration(&req("a@x", "Ana", "12345678")), Ok(()));
}

#[test]
fn roles_and_limits_have_defaults() {
    assert_eq!(invite_role(None), "member");
    assert_eq!(invite_role(Some("admin")), "admin");
    assert!(is_admin_role("owner"));
    assert!(is_admin_role("admin"));
    assert!(!is_admin_role("member"));
    assert_eq!(AuditParams { limit: None }.limit_or_default(), 50);
    assert_eq!(AuditParams { limit: Some(7) }.limit_or_default(), 7);
}

#[test]
fn presence_lists_each_user_once() {
    let mut p = Presence::new();
    p.join(1, "ana".to_string(), 10);
    p.join(2, "bo".to_string(), 11);
    p.join(1, "ana2".to_string(), 12);
    let ids: Vec<u128> = p.entries.iter().map(|e| e.user_id).collect();
    assert_eq!(ids, vec![2, 1]);
    assert_eq!(p.entries[1].user_name, "ana2");
    assert_eq!(p.leave(2), Some("bo".to_string()));
    assert_eq!(p.leave(2), None);
    assert_eq!(p.entries.len(), 1);
}

#[test]
fn versions_are_read_from_tags() {
    assert_eq!(parse_version("v1.2.3"), Ok("1.2.3".to_string()));
    assert_eq!(parse_version("0.4.0"), Ok("0.4.0".to_string()));
    assert_eq!(parse_version(""), Err("Version invalide '': empty string, expected a semver version".to_string()));
    assert_eq!(parse_version("v"), Err("Version invalide 'v': empty string, expected a semver version".to_string()));
    assert_eq!(is_newer_release("v2.0.0", "1.5.0"), Ok(true));
    assert_eq!(is_newer_release("v1.5.0", "1.5.0"), Ok(false));
    assert_eq!(is_newer_release("v1.10.0", "1.9.9"), Ok(true));
    assert_eq!(is_newer_release("1.0.0-beta", "1.0.0"), Ok(false));
}

#[test]
fn checking_for_an_update() {
    assert_eq!(
        check_for_update(Ok(release("v9.0.0")), "1.0.0"),
        Ok(Some(("v9.0.0".to_string(), "https://example.org/release".to_string())))
    );
    assert_eq!(check_for_update(Ok(release("v0.1.0")), "1.0.0"), Ok(None));
    assert_eq!(check_for_update(Err("offline".to_string()), "1.0.0"), Err("offline".to_string()));
    assert_eq!(
        check_for_update(Ok(release("")), "1.0.0"),
        Err("Version invalide '': empty string, expected a semver version".to_string())
    );
}

#[test]
fn assets_are_chosen_by_platform() {
    assert_eq!(get_platform_asset_name("linux", "x86_64"), Some("roadmap-cli-linux-x86_64.tar.gz"));
    assert_eq!(get_platform_asset_name("macos", "aarch64"), Some("roadmap-cli-darwin-arm64.tar.gz"));
    assert_eq!(get_platform_asset_name("windows", "x86_64"), None);
    assert_eq!(
        select_asset(&release("v2.0.0"), "linux", "x86_64"),
        Ok(("roadmap-cli-linux-x86_64.tar.gz".to_string(), "https://example.org/linux.tar.gz".to_string()))
    );
    assert_eq!(
        select_asset(&release("v2.0.0"), "macos", "x86_64"),
        Err("Asset 'roadmap-cli-darwin-x86_64.tar.gz' non trouvé dans la release".to_string())
    );
    assert_eq!(
        select_asset(&release("v2.0.0"), "freebsd", "arm"),
        Err("Plateforme non supportée: freebsd arm".to_string())
    );
}

#[test]
fn generation_targets() {
    assert!(GenerateType::Man.wants_man());
    assert!(!GenerateType::Man.wants_completions());
    assert!(GenerateType::All.wants_man() && GenerateType::All.wants_completions());
    assert!(!GenerateType::Completions.wants_man());
    assert_eq!(man_page_name(None), "roadmap-cli.1");
    assert_eq!(man_page_name(Some("add")), "roadmap-cli-add.1");
}

#[test]
fn opening_a_request_keeps_the_others() {
    let mut store = DeviceStore::new();
    open_device_request(&mut store, "first".to_string(), "111111".to_string(), SECOND, None);
    open_device_request(&mut store, "second".to_string(), "222222".to_string(), 2 * SECOND, None);
    assert_eq!(store.pending.len(), 2);
    assert!(store.approve("222222", "acc".to_string(), "ref".to_string(), "e".to_string(), "n".to_string()));
    assert!(matches!(store.poll("first", 3 * SECOND), PollResult::Pending));
    assert!(matches!(store.poll("second", 3 * SECOND), PollResult::Approved { .. }));
    // The same device code again: the request is replaced, the other kept.
    open_device_request(&mut store, "first".to_string(), "333333".to_string(), 4 * SECOND, None);
    assert_eq!(store.pending.len(), 2);
    assert!(!store.approve("111111", "a".to_string(), "r".to_string(), "e".to_string(), "n".to_string()));
    assert!(matches!(store.poll("second", 5 * SECOND), PollResult::Approved { .. }));
}

fn config(secret: &str) -> JwtConfig {
    JwtConfig { secret: secret.to_string(), access_expiry_hours: 1, refresh_expiry_days: 30 }
}

/// The bytes of a base64url text without padding.
fn base64url(text: &str) -> Vec<u8> {
    let alphabet = b"ABCDEFGHIJKLMNOPQRSTUVWXYZabcdefghijklmnopqrstuvwxyz0123456789-_";
    let mut bits: u32 = 0;
    let mut count = 0;
    let mut out = Vec::new();
    for c in text.bytes() {
        let v = alphabet.iter().position(|&a| a == c).unwrap() as u32;
        bits = (bits << 6) | v;
        count += 6;
        if count >= 8 {
            count -= 8;
            out.push(((bits >> count) & 0xff) as u8);
        }
    }
    out
}

#[test]
fn tokens_signed_are_read_back() {
    let now = chrono::Utc::now().timestamp();
    let token = create_access_token(USER, "ana@example.org", now, &config("s3cret")).unwrap();
    let payload = String::from_utf8(base64url(token.split('.').nth(1).unwrap())).unwrap();
    assert_eq!(
        payload,
        format!(
            "{{\"sub\":\"{}\",\"email\":\"ana@example.org\",\"exp\":{},\"iat\":{},\"token_type\":\"access\"}}",
            USER,
            now + 3600,
            now
        )
    );
    let c = validate_token(&token, &config("s3cret")).unwrap();
    assert_eq!((c.sub.as_str(), c.email.as_str(), c.token_type.as_str()), (USER, "ana@example.org", "access"));
    assert_eq!((c.exp, c.iat), ((now + 3600) as usize, now as usize));
    let refresh = create_refresh_token(USER, "ana@example.org", now, &config("s3cret")).unwrap();
    let r = validate_token(&refresh, &config("s3cret")).unwrap();
    assert_eq!((r.token_type.as_str(), r.exp), ("refresh", (now + 30 * 86400) as usize));
    assert!(validate_token(&token, &config("other")).err().unwrap().starts_with("Token invalide: "));
    assert!(validate_token("not.a.token", &config("s3cret")).err().unwrap().starts_with("Token invalide: "));
    let old = create_access_token(USER, "ana@example.org", 1000, &config("s3cret")).unwrap();
    assert!(validate_token(&old, &config("s3cret")).err().unwrap().starts_with("Token invalide: "));
}

#[test]
fn requests_are_authenticated_by_their_bearer_token() {
    let now = chrono::Utc::now().timestamp();
    let cfg = config("k");
    let access = create_access_token(USER, "ana@example.org", now, &cfg).unwrap();
    let user = authenticate(Some(format!("Bearer {}", access).as_str()), &cfg).ok().unwrap();
    assert_eq!(user.id, 0x67e5504410b1426f9247bb680e5fe0c8);
    assert_eq!(user.email, "ana@example.org");
    assert_eq!(authenticate(None, &cfg).err(), Some("Token manquant".to_string()));
    let refresh = create_refresh_token(USER, "ana@example.org", now, &cfg).unwrap();
    assert_eq!(
        authenticate(Some(format!("Bearer {}", refresh).as_str()), &cfg).err(),
        Some("Token de type access requis".to_string())
    );
    assert!(authenticate(Some("Bearer junk"), &cfg).err().unwrap().starts_with("Token invalide: "));
}

#[test]
fn claims_need_every_field() {
    let full = (Some("s".to_string()), Some("e".to_string()), Some(9), Some(3), Some("access".to_string()));
    let c = claims_from_fields(full).ok().unwrap();
    assert_eq!((c.sub.as_str(), c.exp, c.iat), ("s", 9, 3));
    let no_email = (Some("s".to_string()), None, Some(9), Some(3), Some("access".to_string()));
    assert_eq!(claims_from_fields(no_email).err(), Some("JSON error: missing field `email`".to_string()));
}
