use epicode_kb::api::agent::{new_api_key_secret, AgentRememberResponse, ApiKeyResponse, CreateApiKeyResponse, ListApiKeysQuery};
use epicode_kb::api::auth::{CreateSpaceRequest, InviteMemberRequest, LoginResponse, TokenPairResponse, UserResponse};
use epicode_kb::api::collab::ContextParams;
use epicode_kb::api::health::{graph_label, planned_feature, GraphQuery, SystemHealth};
use epicode_kb::api::proposal::{BatchBody, ListConflictsQuery, ListProposalsQuery};
use epicode_kb::api::upload::{check_file_size, content_preview, MemoryCreated, UploadRequest, UploadResponse};
use epicode_kb::api::{default_space, page_window};
use epicode_kb::auth::jwt::TokenPair;
use epicode_kb::auth::model::{Actor, AgentContext, ApiKey, GlobalRole, SpaceRole, User};
use epicode_kb::config::{AppConfig, ConfigSettings};
use epicode_kb::db::repository::{ListParam, MemoryRepo, NotificationRepo, ProposalRepo, QueryLogRepo};
use epicode_kb::error::AppError;
use epicode_kb::mcp::tools::{required_arg, search_tool_limit};
use epicode_kb::memory::model::{check_memory_text, ConflictResolution, Provenance, ReviewStatus, Visibility};
use epicode_kb::memory::service::{
    agent_write_labels,
    check_agent_write, check_pending, check_version_owner, compute_diff, resolution_content,
    resolution_summary, revert_summary, MemoryVersion,
};
use epicode_kb::parse::FileType;
use epicode_kb::search::matches_filters;

fn sample_user() -> User {
    User {
        id: "usr_1".to_string(),
        email: "a@example.com".to_string(),
        name: "Ann".to_string(),
        password_hash: Some("h".to_string()),
        sso_subject: None,
        global_role: GlobalRole::Editor,
        is_active: true,
        created_at: 10,
        updated_at: 11,
    }
}

fn sample_key() -> ApiKey {
    ApiKey {
        id: "key_1".to_string(),
        space_id: "sp_1".to_string(),
        user_id: "usr_1".to_string(),
        key_hash: "deadbeef".to_string(),
        scope: "write".to_string(),
        name: "ci".to_string(),
        expires_at: Some(99),
        last_used_at: None,
        created_at: 5,
    }
}

fn agent(role: GlobalRole, space_role: Option<SpaceRole>, scope: &str) -> AgentContext {
    AgentContext {
        api_key_id: "k".to_string(),
        space_id: "sp".to_string(),
        user_id: "u".to_string(),
        user_role: role,
        space_role,
        scope: scope.to_string(),
    }
}

#[test]
fn pages_default_and_cap() {
    assert_eq!(page_window(None, None), (20, 0));
    assert_eq!(page_window(Some(500), Some(40)), (100, 40));
    assert_eq!(page_window(Some(7), None), (7, 0));
    assert_eq!(ListApiKeysQuery { limit: Some(101), offset: Some(3) }.page(), (100, 3));
}

#[test]
fn spaces_default() {
    assert_eq!(default_space(&None), "sp_default");
    assert_eq!(default_space(&Some("sp_x".to_string())), "sp_x");
    assert_eq!(GraphQuery { space_id: None }.space(), "sp_default");
    assert_eq!(ListConflictsQuery { space_id: Some("s".to_string()) }.space(), "s");
    let p = ContextParams { memory_id: "m".to_string(), cursor: "  ".to_string(), space_id: None };
    assert!(p.is_empty_cursor());
    assert_eq!(p.space(), "sp_default");
}

#[test]
fn proposal_pages() {
    let q = ListProposalsQuery { space_id: "s".to_string(), status: None, page: None, limit: None };
    assert_eq!(q.window(), (20, 0));
    let q = ListProposalsQuery { space_id: "s".to_string(), status: None, page: Some(3), limit: Some(500) };
    assert_eq!(q.window(), (100, 200));
    let q = ListProposalsQuery { space_id: "s".to_string(), status: None, page: Some(-2), limit: Some(10) };
    assert_eq!(q.window(), (10, 0));
}

#[test]
fn key_and_user_views() {
    let k = sample_key();
    let r = ApiKeyResponse::from_key(&k);
    assert_eq!(r.id, "key_1");
    assert_eq!(r.expires_at, Some(99));
    let c = CreateApiKeyResponse::from_key(&k, "ak_secret".to_string());
    assert_eq!(c.key, "ak_secret");
    assert_eq!(c.scope, "write");
    let u = UserResponse::from_user(&sample_user());
    assert_eq!(u.global_role, "editor");
    assert_eq!(u.created_at, 10);
    let tokens = TokenPair { access_token: "a".to_string(), refresh_token: "r".to_string(), expires_in: 3600 };
    let l = LoginResponse::new(tokens.clone(), &sample_user());
    assert_eq!(l.user.email, "a@example.com");
    assert_eq!(TokenPairResponse::new(tokens).expires_in, 3600);
    let a = AgentRememberResponse::new("mem_1".to_string(), ReviewStatus::Pending);
    assert_eq!(a.review_status, "pending");
}

#[test]
fn api_key_secrets() {
    let s1 = new_api_key_secret();
    let s2 = new_api_key_secret();
    assert!(s1.starts_with("ak_"));
    assert_eq!(s1.len(), 35);
    assert!(s1[3..].chars().all(|c| c.is_ascii_hexdigit() && !c.is_ascii_uppercase()));
    assert_ne!(s1, s2);
}

#[test]
fn space_slugs() {
    let r = CreateSpaceRequest { name: "Team Wiki Docs".to_string(), slug: None, description: None };
    assert_eq!(r.slug_or_default(), "team-wiki-docs");
    let r = CreateSpaceRequest { name: "X".to_string(), slug: Some("custom".to_string()), description: None };
    assert_eq!(r.slug_or_default(), "custom");
    let inv = InviteMemberRequest { email: "z@x.io".to_string(), role: SpaceRole::Viewer };
    assert!(matches!(inv.user_not_found(), AppError::NotFound(m) if m == "user not found: z@x.io"));
}

#[test]
fn health_bodies() {
    let h = SystemHealth::ok("0.4.0");
    assert_eq!(h.status, "ok");
    assert_eq!(graph_label("short"), "short");
    assert_eq!(graph_label(&"x".repeat(50)), "x".repeat(40));
    assert_eq!(planned_feature("health scan"), "not implemented: health scan (planned for Sprint 5)");
}

#[test]
fn batch_body_becomes_action() {
    let b = BatchBody { action: "approve".to_string(), proposal_ids: vec!["p1".to_string()], feedback: None };
    let a = b.into_action();
    assert_eq!(a.action, "approve");
    assert_eq!(a.proposal_ids, vec!["p1".to_string()]);
}

#[test]
fn upload_previews() {
    assert_eq!(content_preview("short"), "short");
    let long = "a".repeat(150);
    assert_eq!(content_preview(&long), format!("{}...", "a".repeat(100)));
    let m = MemoryCreated::new("mem_1".to_string(), 2, "hello");
    assert_eq!(m.chunk_index, 2);
    assert_eq!(m.content_preview, "hello");
}

#[test]
fn upload_size_limit() {
    assert!(check_file_size(10, 10).is_ok());
    match check_file_size(11, 10) {
        Err(AppError::BadRequest(m)) => assert_eq!(m, "file too large: 11 bytes (max: 10)"),
        other => panic!("unexpected {:?}", other),
    }
}

#[test]
fn upload_plans() {
    let req = UploadRequest { file: None, file_name: Some("a.md".to_string()), space_id: None, provenance: None, chunk_size: None };
    assert!(matches!(req.plan(512), Err(AppError::BadRequest(m)) if m == "missing 'file' field"));
    let req = UploadRequest { file: Some(vec![1]), file_name: None, space_id: None, provenance: None, chunk_size: None };
    assert!(matches!(req.plan(512), Err(AppError::BadRequest(m)) if m == "missing file name"));
    let req = UploadRequest { file: Some(vec![1]), file_name: Some("a.exe".to_string()), space_id: None, provenance: None, chunk_size: None };
    assert!(matches!(req.plan(512), Err(AppError::BadRequest(m)) if m == "unsupported file type: a.exe"));
    let req = UploadRequest {
        file: Some(b"hi".to_vec()),
        file_name: Some("Notes.MD".to_string()),
        space_id: None,
        provenance: None,
        chunk_size: Some(100),
    };
    let plan = req.plan(512).unwrap();
    assert_eq!(plan.file_type, FileType::Markdown);
    assert_eq!(plan.space_id, "sp_default");
    assert_eq!(plan.provenance, Provenance::Human);
    assert_eq!(plan.chunk_size, 100);
    let resp = UploadResponse::new(&plan, 1, vec![], 7);
    assert_eq!(resp.file_type, "markdown");
    assert_eq!(resp.file_name, "Notes.MD");
}

#[test]
fn memory_list_query_statements() {
    let provs = [Provenance::Human, Provenance::Ai];
    let q = MemoryRepo::list_query(Some(&provs), true, Some(ReviewStatus::Pending));
    assert_eq!(
        q.count_sql,
        "SELECT COUNT(*) FROM memories WHERE space_id = ?1 AND provenance IN (?2, ?3) AND trust_level >= ?4 AND review_status = ?5"
    );
    assert!(q.page_sql.ends_with(
        "FROM memories WHERE space_id = ?1 AND provenance IN (?2, ?3) AND trust_level >= ?4 AND review_status = ?5 ORDER BY created_at DESC LIMIT ?6 OFFSET ?7"
    ));
    assert_eq!(
        q.params,
        vec![
            ListParam::SpaceId,
            ListParam::Provenance(Provenance::Human),
            ListParam::Provenance(Provenance::Ai),
            ListParam::MinTrust,
            ListParam::ReviewStatus(ReviewStatus::Pending),
            ListParam::Limit,
            ListParam::Offset,
        ]
    );
    let plain = MemoryRepo::list_query(Some(&[]), false, None);
    assert_eq!(plain.count_sql, "SELECT COUNT(*) FROM memories WHERE space_id = ?1");
    assert!(plain.page_sql.ends_with("LIMIT ?2 OFFSET ?3"));
    assert_eq!(plain.params.len(), 3);
}

#[test]
fn stub_repositories() {
    assert!(matches!(ProposalRepo::list("s", None), Err(AppError::NotImplemented(m)) if m == "proposal listing (planned for Sprint 3)"));
    assert!(matches!(ProposalRepo::insert("{}"), Err(AppError::NotImplemented(_))));
    assert!(matches!(ProposalRepo::update_status("p", "x"), Err(AppError::NotImplemented(_))));
    assert!(matches!(NotificationRepo::list_by_user("u"), Err(AppError::NotImplemented(m)) if m == "notification listing (planned for Sprint 3)"));
    assert!(matches!(NotificationRepo::create("{}"), Err(AppError::NotImplemented(_))));
    assert!(QueryLogRepo::insert_sql().starts_with("INSERT INTO query_logs"));
}

#[test]
fn agent_write_rules() {
    assert!(check_agent_write(&agent(GlobalRole::Admin, None, "read")).is_ok());
    assert!(check_agent_write(&agent(GlobalRole::Viewer, Some(SpaceRole::Owner), "read")).is_ok());
    assert!(check_agent_write(&agent(GlobalRole::Viewer, None, "write")).is_ok());
    assert!(check_agent_write(&agent(GlobalRole::Viewer, None, "admin")).is_ok());
    match check_agent_write(&agent(GlobalRole::Editor, Some(SpaceRole::Editor), "read")) {
        Err(AppError::Forbidden(m)) => assert_eq!(m, "api key scope does not allow write"),
        other => panic!("unexpected {:?}", other),
    }
    let mcp = AgentContext::mcp("sp_9");
    assert!(check_agent_write(&mcp).is_ok());
    let actor = Actor { user_id: "u1".to_string(), global_role: GlobalRole::Viewer, space_role: None };
    let ctx = AgentContext::for_actor(&actor, "sp_2", "read");
    assert_eq!(ctx.api_key_id, "api");
    assert!(check_agent_write(&ctx).is_err());
}

#[test]
fn pending_reviews_only() {
    assert!(check_pending("m1", ReviewStatus::Pending).is_ok());
    match check_pending("m1", ReviewStatus::Accepted) {
        Err(AppError::BadRequest(m)) => assert_eq!(m, "memory m1 is not pending review (current: accepted)"),
        other => panic!("unexpected {:?}", other),
    }
}

#[test]
fn diffs_and_resolutions() {
    assert_eq!(compute_diff("same", "same"), "no changes");
    assert_eq!(compute_diff("old", "new"), "-old\n+new");
    assert_eq!(resolution_content(ConflictResolution::Mine, None, "cur").unwrap(), "cur");
    assert_eq!(resolution_content(ConflictResolution::Theirs, Some("x".to_string()), "cur").unwrap(), "x");
    assert!(matches!(
        resolution_content(ConflictResolution::Merge, None, "cur"),
        Err(AppError::BadRequest(m)) if m == "merge resolution requires explicit content"
    ));
    assert_eq!(resolution_summary(ConflictResolution::Merge), "conflict resolution: Merge");
    assert_eq!(revert_summary(3), "revert to version 3");
    assert_eq!(revert_summary(-12), "revert to version -12");
    assert_eq!(revert_summary(i64::MIN), format!("revert to version {}", i64::MIN));
    assert!(check_version_owner("m1", "m1").is_ok());
    assert!(matches!(check_version_owner("m1", "m2"), Err(AppError::BadRequest(m)) if m == "version does not belong to memory"));
}

#[test]
fn next_versions() {
    let v = MemoryVersion::next("ver_1".to_string(), "m1", "sp", 4, "a", "b", "u1", Some("edit".to_string()), 77);
    assert_eq!(v.version_seq, 5);
    assert_eq!(v.diff.as_deref(), Some("-a\n+b"));
    assert_eq!(v.editor_id.as_deref(), Some("u1"));
    assert_eq!(v.created_at, 77);
}

#[test]
fn memory_text_checks() {
    assert!(check_memory_text("hello", "sp").is_ok());
    assert!(matches!(check_memory_text("  ", "sp"), Err(AppError::BadRequest(m)) if m == "content must not be empty"));
    assert!(matches!(check_memory_text("x", " "), Err(AppError::BadRequest(m)) if m == "space_id must not be empty"));
}

#[test]
fn config_from_settings() {
    let s = ConfigSettings {
        listen_addr: Some("127.0.0.1:8080".to_string()),
        database_url: None,
        tantivy_path: None,
        embed_model: None,
        embed_dimensions: Some("768".to_string()),
        upload_dir: None,
        max_upload_size: Some("lots".to_string()),
        deepseek_api_key: Some("SECRET-REDACTED".to_string()),
        deepseek_base_url: None,
    };
    let c = AppConfig::from_settings(s);
    assert_eq!(c.listen_addr, "127.0.0.1:8080");
    assert_eq!(c.database_url, "data/epicode_kb.db");
    assert_eq!(c.embed_dimensions, 768);
    assert_eq!(c.max_upload_size, 10 * 1024 * 1024);
    assert_eq!(c.deepseek_api_key.as_deref(), Some("SECRET-REDACTED"));
    assert_eq!(c.chunk_size, 512);
    let d = AppConfig::default();
    assert_eq!(d.embed_dimensions, 384);
    assert_eq!(d.deepseek_base_url, "https://api.deepseek.com");
}

#[test]
fn mcp_tool_arguments() {
    assert_eq!(required_arg("q", Some("rust")).unwrap(), "rust");
    assert!(matches!(required_arg("space_id", None), Err(AppError::BadRequest(m)) if m == "missing space_id"));
    assert_eq!(search_tool_limit(None), 10);
    assert_eq!(search_tool_limit(Some(3)), 3);
}

#[test]
fn search_label_filters() {
    let provs = [Provenance::Ai];
    assert!(matches_filters(Provenance::Ai, ReviewStatus::Accepted, Visibility::SpaceOnly, Some(&provs), None, None));
    assert!(!matches_filters(Provenance::Human, ReviewStatus::Accepted, Visibility::SpaceOnly, Some(&provs), None, None));
    assert!(matches_filters(Provenance::Human, ReviewStatus::Accepted, Visibility::SpaceOnly, Some(&[]), None, None));
    assert!(!matches_filters(Provenance::Human, ReviewStatus::Pending, Visibility::SpaceOnly, None, Some(ReviewStatus::Accepted), None));
    assert!(!matches_filters(Provenance::Human, ReviewStatus::Accepted, Visibility::Private, None, None, Some(Visibility::SpaceOnly)));
}

#[test]
fn agent_writes_are_ai_and_pending() {
    let a = agent(GlobalRole::Editor, None, "write");
    let l = agent_write_labels(&a, None);
    assert_eq!(l.provenance, Provenance::Ai);
    assert_eq!(l.review_status, ReviewStatus::Pending);
    assert_eq!(l.author_id, a.user_id);
    assert_eq!(l.visibility, Visibility::Inherit);
    assert_eq!(agent_write_labels(&a, Some(Visibility::Private)).visibility, Visibility::Private);
}
