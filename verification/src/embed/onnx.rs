//! Embedding providers: the hash-based fallback and the (not compiled in)
//! ONNX runtime model.

use crate::error::AppError;
use vstd::prelude::*;

verus! {

/// Deterministic pseudo-random embedding provider: the vector of a text is
/// derived from the text alone, so the same text always embeds the same.
pub struct RandomEmbedder {
    dim: usize,
}

impl RandomEmbedder {
    /// Dimensions of the vectors.
    pub closed spec fn spec_dim(&self) -> usize {
        self.dim
    }

    /// Create an embedder producing vectors of `dim` dimensions.
    pub fn new(dim: usize) -> (res: Self)
        ensures
            res.spec_dim() == dim,
    {
        RandomEmbedder { dim }
    }

    /// Embedding vector dimensions.
    pub fn dimensions(&self) -> (res: usize)
        ensures
            res == self.spec_dim(),
    {
        self.dim
    }
}

/// ONNX embedding provider; the ONNX runtime is not part of this build.
pub struct OnnxEmbedder;

impl OnnxEmbedder {
    /// Always refuses: ONNX inference is not compiled in.
    pub fn new(model_path: &str, dim: usize) -> (res: Result<Self, AppError>)
        ensures
            res matches Err(AppError::NotImplemented(m)) && m@
                == "ONNX embedding requires the `ort` crate (not compiled in). Using RandomEmbedder as fallback."@,
    {
        Err(
            AppError::not_implemented(
                "ONNX embedding requires the `ort` crate (not compiled in). Using RandomEmbedder as fallback.",
            ),
        )
    }
}

} // verus!
