use epicode_kb::auth::jwt::{JwtClaims, JwtIssuer, RefreshClaims};
use epicode_kb::auth::middleware::{
    after_api_key, after_bearer, anonymous_access, extract_agent_api_key, extract_bearer,
    extract_query_token, extract_space_id, is_public_path, request_token, ApiKeyStep,
};
use epicode_kb::auth::model::{
    AgentContext, ApiKey, CreateLocalUserRequest, GlobalRole, LoginRequest, Permission,
    SpaceRole, SpaceVisibility, User,
};
use epicode_kb::auth::rbac::{AuthContext, RbacEngine};
use epicode_kb::auth::service::{
    authenticate, check_active, check_api_key, check_registration, hash_api_key, hash_password,
    register_user, verify_password,
};
use epicode_kb::config::AppConfig;
use epicode_kb::error::AppError;

fn user(active: bool, hash: Option<String>) -> User {
    User {
        id: "usr_7".to_string(),
        email: "bob@example.com".to_string(),
        name: "Bob".to_string(),
        password_hash: hash,
        sso_subject: None,
        global_role: GlobalRole::Viewer,
        is_active: active,
        created_at: 1,
        updated_at: 1,
    }
}

fn key(expires_at: Option<i64>) -> ApiKey {
    ApiKey {
        id: "key_1".to_string(),
        space_id: "sp".to_string(),
        user_id: "usr_7".to_string(),
        key_hash: "h".to_string(),
        scope: "write".to_string(),
        name: "n".to_string(),
        expires_at,
        last_used_at: None,
        created_at: 0,
    }
}

fn request(email: &str, name: &str, password: &str) -> CreateLocalUserRequest {
    CreateLocalUserRequest {
        email: email.to_string(),
        name: name.to_string(),
        password: password.to_string(),
        global_role: GlobalRole::Editor,
    }
}

fn bad_request_message(r: Result<(), AppError>) -> String {
    match r {
        Err(AppError::BadRequest(m)) => m,
        other => panic!("unexpected {:?}", other),
    }
}

#[test]
fn role_names_round_trip() {
    for r in [GlobalRole::Admin, GlobalRole::Owner, GlobalRole::Editor, GlobalRole::Viewer] {
        assert_eq!(GlobalRole::parse_str(r.as_str()).unwrap(), r);
    }
    for r in [SpaceRole::Owner, SpaceRole::Editor, SpaceRole::Viewer] {
        assert_eq!(SpaceRole::parse_str(r.as_str()).unwrap(), r);
    }
    for v in [SpaceVisibility::Team, SpaceVisibility::Public, SpaceVisibility::Private] {
        assert_eq!(SpaceVisibility::parse_str(v.as_str()).unwrap(), v);
    }
    assert!(GlobalRole::parse_str("root").is_err());
}

#[test]
fn registration_rules() {
    assert_eq!(bad_request_message(request("nobody", "A", "Passw0rd!Passw0rd").validate()), "email is invalid");
    assert_eq!(bad_request_message(request("a@b.c", "  ", "Passw0rd!Passw0rd").validate()), "name must not be empty");
    assert_eq!(bad_request_message(request("a@b.c", "A", "Short1!").validate()), "password must be at least 12 characters");
    assert_eq!(
        bad_request_message(request("a@b.c", "A", &"Aa1!".repeat(33)).validate()),
        "password must not exceed 128 characters"
    );
    assert!(bad_request_message(request("a@b.c", "A", "alllowercase123").validate()).starts_with("password must contain"));
    assert!(request("a@b.c", "A", "Passw0rd!Passw0rd").validate().is_ok());
    match check_registration(&request("a@b.c", "A", "Passw0rd!Passw0rd"), true) {
        Err(AppError::Conflict(m)) => assert_eq!(m, "user with email a@b.c already exists"),
        other => panic!("unexpected {:?}", other),
    }
}

#[test]
fn registered_user_logs_in() {
    let u = register_user(request("carol@example.com", "Carol", "Sup3r$ecretPass"), false).unwrap();
    assert!(u.id.starts_with("usr_"));
    assert!(u.is_active);
    let ok = authenticate(
        &LoginRequest { email: "carol@example.com".to_string(), password: "Sup3r$ecretPass".to_string() },
        Some(u.clone()),
    );
    assert_eq!(ok.unwrap().id, u.id);
    let wrong = authenticate(
        &LoginRequest { email: "carol@example.com".to_string(), password: "wrong".to_string() },
        Some(u),
    );
    assert!(matches!(wrong, Err(AppError::Unauthorized(m)) if m == "invalid email or password"));
}

#[test]
fn login_refusals() {
    let req = LoginRequest { email: "bob@example.com".to_string(), password: "pw".to_string() };
    assert!(matches!(authenticate(&req, None), Err(AppError::Unauthorized(_))));
    assert!(matches!(authenticate(&req, Some(user(false, None))), Err(AppError::Forbidden(m)) if m == "user account is disabled"));
    assert!(matches!(authenticate(&req, Some(user(true, None))), Err(AppError::Unauthorized(_))));
    let empty = LoginRequest { email: " ".to_string(), password: "pw".to_string() };
    assert!(matches!(authenticate(&empty, None), Err(AppError::BadRequest(m)) if m == "email must not be empty"));
    let nopw = LoginRequest { email: "x@y".to_string(), password: "".to_string() };
    assert!(matches!(authenticate(&nopw, None), Err(AppError::BadRequest(m)) if m == "password must not be empty"));
    assert!(check_active(user(true, None)).is_ok());
    assert!(check_active(user(false, None)).is_err());
}

#[test]
fn password_hashes_verify() {
    let h = hash_password("Correct-Horse-9").unwrap();
    assert!(verify_password("Correct-Horse-9", &h).unwrap());
    assert!(!verify_password("incorrect", &h).unwrap());
    assert!(matches!(verify_password("x", "not-a-hash"), Err(AppError::PasswordHash(_))));
}

#[test]
fn api_key_hashes_are_sha256_hex() {
    let abc = "ba7816bf8f01cfea414140de5dae2223b00361a396177a9cb410ff61f20015ad";
    assert_eq!(hash_api_key("abc", None), abc);
    assert_eq!(hash_api_key("ab", Some("c")), abc);
    assert_ne!(hash_api_key("abc", Some("salt")), abc);
}

#[test]
fn api_key_checks() {
    assert!(matches!(check_api_key(None, 10, true), Err(AppError::Unauthorized(m)) if m == "invalid api key"));
    assert!(matches!(check_api_key(Some(key(Some(5))), 10, true), Err(AppError::Unauthorized(m)) if m == "api key expired"));
    assert!(matches!(check_api_key(Some(key(None)), 10, false), Err(AppError::Forbidden(m)) if m == "agent writes are disabled"));
    assert_eq!(check_api_key(Some(key(Some(10))), 10, true).unwrap().id, "key_1");
}

#[test]
fn rbac_grants() {
    let rbac = RbacEngine::new();
    let ctx = |g: GlobalRole, s: Option<SpaceRole>| AuthContext {
        user_id: "u".to_string(),
        global_role: g,
        space_id: "sp".to_string(),
        space_role: s,
    };
    assert!(rbac.check(&ctx(GlobalRole::Admin, None), Permission::UserManage).is_ok());
    assert!(rbac.check(&ctx(GlobalRole::Owner, None), Permission::UserManage).is_err());
    assert!(rbac.check(&ctx(GlobalRole::Viewer, Some(SpaceRole::Editor)), Permission::ApiKeyManage).is_ok());
    assert!(rbac.check(&ctx(GlobalRole::Viewer, Some(SpaceRole::Viewer)), Permission::MemoryWrite).is_err());
    match rbac.check(&ctx(GlobalRole::Viewer, None), Permission::SpaceAdmin) {
        Err(AppError::Forbidden(m)) => assert!(m.starts_with("user u lacks permission ")),
        other => panic!("unexpected {:?}", other),
    }
    assert!(RbacEngine::has_permission(GlobalRole::Editor, None, &Permission::MemoryWrite));
    assert!(!RbacEngine::has_permission(GlobalRole::Editor, None, &Permission::MemoryAdmin));
}

#[test]
fn header_extraction() {
    assert_eq!(extract_bearer(Some("Bearer abc.def")), Some("abc.def".to_string()));
    assert_eq!(extract_bearer(Some("Basic xyz")), None);
    assert_eq!(extract_bearer(None), None);
    assert_eq!(extract_space_id(None), "sp_default");
    assert_eq!(extract_space_id(Some("sp_9")), "sp_9");
    assert!(extract_agent_api_key(None).is_none());
}

#[test]
fn public_paths() {
    assert!(is_public_path("/api/v1/auth/login"));
    assert!(!is_public_path("/api/v1/memories"));
    assert!(anonymous_access("/api/v1/auth/login").is_ok());
    assert!(matches!(anonymous_access("/api/v1/memories"), Err(AppError::Unauthorized(_))));
}

#[test]
fn middleware_steps() {
    let agent = AgentContext {
        api_key_id: "key_1".to_string(),
        space_id: "sp".to_string(),
        user_id: "usr_7".to_string(),
        user_role: GlobalRole::Viewer,
        space_role: Some(SpaceRole::Editor),
        scope: "write".to_string(),
    };
    match after_api_key(Ok(agent), false, "sp") {
        ApiKeyStep::Accept(id) => {
            assert_eq!(id.actor.user_id, "usr_7");
            assert_eq!(id.context.space_id, "sp");
        }
        other => panic!("unexpected {:?}", other),
    }
    let id = after_bearer(Ok((user(true, None), None)), "sp_2").unwrap();
    assert_eq!(id.context.space_id, "sp_2");
    assert!(after_bearer(Err(AppError::Jwt("bad".to_string())), "sp").is_err());
}

#[test]
fn jwt_claims() {
    let issuer = JwtIssuer::new(&AppConfig::default());
    assert_eq!(issuer.secret(), "epicode-kb-dev-secret");
    let u = user(true, None);
    let c = issuer.access_claims(&u, 1000);
    assert_eq!(c.exp, 4600);
    assert_eq!(c.token_type, "access");
    let r = issuer.refresh_claims(&u, 1000);
    assert_eq!(r.exp, 1000 + 7 * 24 * 3600);
    assert!(issuer.accept_access(c.clone()).is_ok());
    let wrong = JwtClaims { token_type: "refresh".to_string(), ..c };
    assert!(matches!(issuer.accept_access(wrong), Err(AppError::Jwt(m)) if m == "token is not an access token"));
    assert_eq!(issuer.accept_refresh(r.clone()).unwrap(), "usr_7");
    let bad = RefreshClaims { token_type: "access".to_string(), ..r };
    assert!(issuer.accept_refresh(bad).is_err());
}

#[test]
fn query_token_on_collab_route() {
    assert_eq!(extract_query_token(Some("a=1&token=abc.def&b=2")), Some("abc.def".to_string()));
    assert_eq!(extract_query_token(Some("token=first&token=second")), Some("first".to_string()));
    assert_eq!(extract_query_token(Some("tok=1&xtoken=2")), None);
    assert_eq!(extract_query_token(Some("token=")), Some(String::new()));
    assert_eq!(extract_query_token(None), None);
    assert_eq!(request_token(None, "/api/v1/collab/mem_1", Some("token=T")), Some("T".to_string()));
    assert_eq!(request_token(None, "/api/v1/memories", Some("token=T")), None);
    assert_eq!(request_token(Some("H".to_string()), "/api/v1/collab/mem_1", Some("token=T")), Some("H".to_string()));
    assert_eq!(request_token(None, "/api/v1/collab/mem_1", None), None);
}
