//! Embedding providers.

pub mod onnx;
