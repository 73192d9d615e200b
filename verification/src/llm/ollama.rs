//! Ollama (local) provider settings.

use vstd::prelude::*;

verus! {

/// Ollama local provider.
pub struct OllamaProvider {
    pub base_url: String,
}

impl OllamaProvider {
    /// Create a provider for the default local address.
    pub fn new() -> (res: Self)
        ensures
            res.base_url@ == "http://localhost:11434"@,
    {
        OllamaProvider { base_url: String::from_str("http://localhost:11434") }
    }

    /// Create a provider for a custom base URL.
    pub fn with_base_url(base_url: String) -> (res: Self)
        ensures
            res.base_url == base_url,
    {
        OllamaProvider { base_url }
    }
}

impl Default for OllamaProvider {
    fn default() -> (res: Self)
        ensures
            res.base_url@ == "http://localhost:11434"@,
    {
        Self::new()
    }
}

} // verus!
