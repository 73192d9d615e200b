//! Application configuration.

use crate::text::{parse_usize, spec_parse_usize};
use std::sync::Arc;
use vstd::prelude::*;

verus! {

/// Application configuration.
#[derive(Debug, Clone)]
pub struct AppConfig {
    /// Server listen address.
    pub listen_addr: String,
    /// SQLite database file path.
    pub database_url: String,
    /// Full-text index directory path.
    pub tantivy_path: String,
    /// Embedding model file path.
    pub embed_model_path: String,
    /// Embedding vector dimensions.
    pub embed_dimensions: usize,
    /// File upload directory.
    pub upload_dir: String,
    /// Maximum upload size in bytes.
    pub max_upload_size: usize,
    /// DeepSeek API key (optional).
    pub deepseek_api_key: Option<String>,
    /// DeepSeek API base URL.
    pub deepseek_base_url: String,
    /// Secret that signs access and refresh tokens.
    pub jwt_secret: String,
    /// Lifetime of an access token, in seconds.
    pub jwt_access_ttl: i64,
    /// Lifetime of a refresh token, in seconds.
    pub jwt_refresh_ttl: i64,
    /// Salt appended to agent API keys before hashing (optional).
    pub api_key_salt: Option<String>,
    /// Whether agents may write through API keys.
    pub agent_write_enabled: bool,
    /// Size of the chunks uploaded documents are split into.
    pub chunk_size: usize,
    /// Overlap between consecutive chunks of an overlong paragraph.
    pub chunk_overlap: usize,
}

impl AppConfig {
    /// Wrap in `Arc` for shared ownership.
    pub fn into_arc(self) -> (res: Arc<Self>)
        ensures
            *res == self,
    {
        Arc::new(self)
    }
}

impl Default for AppConfig {
    fn default() -> (res: Self)
        ensures
            res.listen_addr@ == "0.0.0.0:3000"@,
            res.database_url@ == "data/epicode_kb.db"@,
            res.tantivy_path@ == "data/tantivy"@,
            res.embed_model_path@ == "models/all-MiniLM-L6-v2.onnx"@,
            res.embed_dimensions == 384,
            res.upload_dir@ == "data/uploads"@,
            res.max_upload_size == 10 * 1024 * 1024,
            res.deepseek_api_key is None,
            res.deepseek_base_url@ == "https://api.deepseek.com"@,
            res.jwt_secret@ == "epicode-kb-dev-secret"@,
            res.jwt_access_ttl == 3600,
            res.jwt_refresh_ttl == 7 * 24 * 3600,
            res.api_key_salt is None,
            res.agent_write_enabled,
            res.chunk_size == 512,
            res.chunk_overlap == 64,
    {
        AppConfig {
            listen_addr: String::from_str("0.0.0.0:3000"),
            database_url: String::from_str("data/epicode_kb.db"),
            tantivy_path: String::from_str("data/tantivy"),
            embed_model_path: String::from_str("models/all-MiniLM-L6-v2.onnx"),
            embed_dimensions: 384,
            upload_dir: String::from_str("data/uploads"),
            max_upload_size: 10 * 1024 * 1024,
            deepseek_api_key: None,
            deepseek_base_url: String::from_str("https://api.deepseek.com"),
            jwt_secret: String::from_str("epicode-kb-dev-secret"),
            jwt_access_ttl: 3600,
            jwt_refresh_ttl: 7 * 24 * 3600,
            api_key_salt: None,
            agent_write_enabled: true,
            chunk_size: 512,
            chunk_overlap: 64,
        }
    }
}

/// The settings the environment may give, each as the raw text of its
/// variable (`EPICODE_KB_LISTEN_ADDR`, `EPICODE_KB_DATABASE_URL`,
/// `EPICODE_KB_TANTIVY_PATH`, `EPICODE_KB_EMBED_MODEL`,
/// `EPICODE_KB_EMBED_DIMENSIONS`, `EPICODE_KB_UPLOAD_DIR`,
/// `EPICODE_KB_MAX_UPLOAD_SIZE`, `DEEPSEEK_API_KEY`, `DEEPSEEK_BASE_URL`).
#[derive(Debug, Clone)]
pub struct ConfigSettings {
    pub listen_addr: Option<String>,
    pub database_url: Option<String>,
    pub tantivy_path: Option<String>,
    pub embed_model: Option<String>,
    pub embed_dimensions: Option<String>,
    pub upload_dir: Option<String>,
    pub max_upload_size: Option<String>,
    pub deepseek_api_key: Option<String>,
    pub deepseek_base_url: Option<String>,
}

/// A text setting, or its default.
pub open spec fn text_or(v: Option<String>, d: Seq<char>) -> Seq<char> {
    match v {
        Some(s) => s@,
        None => d,
    }
}

/// A number setting, or its default when absent or not a number.
pub open spec fn number_or(v: Option<String>, d: usize) -> usize {
    match v {
        Some(s) => match spec_parse_usize(s@) {
            Some(n) => n,
            None => d,
        },
        None => d,
    }
}

/// A text setting, or the given default.
fn text_setting(v: Option<String>, d: &str) -> (res: String)
    ensures
        res@ == text_or(v, d@),
{
    match v {
        Some(s) => s,
        None => String::from_str(d),
    }
}

/// A number setting, or the given default.
fn number_setting(v: &Option<String>, d: usize) -> (res: usize)
    ensures
        res == number_or(*v, d),
{
    match v {
        Some(s) => match parse_usize(s.as_str()) {
            Some(n) => n,
            None => d,
        },
        None => d,
    }
}

impl AppConfig {
    /// The configuration the environment's settings give; each missing
    /// setting (or number that does not parse) takes its default, and the
    /// settings the environment does not carry take those of `default()`.
    pub fn from_settings(s: ConfigSettings) -> (res: Self)
        ensures
            res.listen_addr@ == text_or(s.listen_addr, "0.0.0.0:3000"@),
            res.database_url@ == text_or(s.database_url, "data/epicode_kb.db"@),
            res.tantivy_path@ == text_or(s.tantivy_path, "data/tantivy"@),
            res.embed_model_path@ == text_or(s.embed_model, "models/all-MiniLM-L6-v2.onnx"@),
            res.embed_dimensions == number_or(s.embed_dimensions, 384),
            res.upload_dir@ == text_or(s.upload_dir, "data/uploads"@),
            res.max_upload_size == number_or(s.max_upload_size, 10485760),
            res.deepseek_api_key == s.deepseek_api_key,
            res.deepseek_base_url@ == text_or(s.deepseek_base_url, "https://api.deepseek.com"@),
            res.jwt_secret@ == "epicode-kb-dev-secret"@,
            res.jwt_access_ttl == 3600,
            res.jwt_refresh_ttl == 7 * 24 * 3600,
            res.api_key_salt is None,
            res.agent_write_enabled,
            res.chunk_size == 512,
            res.chunk_overlap == 64,
    {
        let embed_dimensions = number_setting(&s.embed_dimensions, 384);
        let max_upload_size = number_setting(&s.max_upload_size, 10 * 1024 * 1024);
        AppConfig {
            listen_addr: text_setting(s.listen_addr, "0.0.0.0:3000"),
            database_url: text_setting(s.database_url, "data/epicode_kb.db"),
            tantivy_path: text_setting(s.tantivy_path, "data/tantivy"),
            embed_model_path: text_setting(s.embed_model, "models/all-MiniLM-L6-v2.onnx"),
            embed_dimensions,
            upload_dir: text_setting(s.upload_dir, "data/uploads"),
            max_upload_size,
            deepseek_api_key: s.deepseek_api_key,
            deepseek_base_url: text_setting(s.deepseek_base_url, "https://api.deepseek.com"),
            jwt_secret: String::from_str("epicode-kb-dev-secret"),
            jwt_access_ttl: 3600,
            jwt_refresh_ttl: 7 * 24 * 3600,
            api_key_salt: None,
            agent_write_enabled: true,
            chunk_size: 512,
            chunk_overlap: 64,
        }
    }
}

} // verus!
