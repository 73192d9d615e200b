//! Upload API: what an upload form must hold, and the bodies of its answer.

use crate::api::{default_space, space_or_default};
use crate::error::AppError;
use crate::memory::model::Provenance;
use crate::parse::{after_last_dot, extension_type, parser_for_file, trim_leading_dots, unsupported_file_message, FileType};
use crate::text::{byte_len, decimal, lowercase_of, push_decimal, utf8_bytes};
use vstd::prelude::*;

verus! {

/// Response to an upload.
#[derive(Debug, Clone)]
pub struct UploadResponse {
    pub file_name: String,
    pub file_type: String,
    pub total_chunks: usize,
    pub memories_created: Vec<MemoryCreated>,
    pub processing_time_ms: u64,
}

/// A memory made from one chunk of an upload.
#[derive(Debug, Clone)]
pub struct MemoryCreated {
    pub id: String,
    pub chunk_index: usize,
    pub content_preview: String,
}

/// The preview of a content: its first 100 bytes and `...` when longer.
pub open spec fn preview_of(content: Seq<char>) -> Seq<char> {
    if utf8_bytes(content).len() > 100 {
        vstd::utf8::decode_utf8(utf8_bytes(content).subrange(0, 100)) + "..."@
    } else {
        content
    }
}

/// Whether a preview can cut the content: it is short, or its 100th byte
/// ends a character.
pub open spec fn previewable(content: Seq<char>) -> bool {
    utf8_bytes(content).len() > 100 ==> vstd::utf8::is_char_boundary(utf8_bytes(content), 100)
}

/// Whether a content can be previewed (see `previewable`).
pub fn can_preview(content: &str) -> (res: bool)
    ensures
        res == previewable(content@),
{
    byte_len(content) <= 100 || content.is_char_boundary(100)
}

/// The preview of a memory's content.
pub fn content_preview(content: &str) -> (res: String)
    requires
        previewable(content@),
    ensures
        res@ == preview_of(content@),
{
    if byte_len(content) > 100 {
        let (head, _) = content.split_at(100);
        proof {
            vstd::utf8::encode_utf8_decode_utf8(head@);
            reveal_strlit("...");
        }
        let mut p = String::from_str(head);
        p.append("...");
        p
    } else {
        String::from_str(content)
    }
}

impl MemoryCreated {
    /// The entry for the memory made from chunk `chunk_index`.
    pub fn new(id: String, chunk_index: usize, content: &str) -> (res: Self)
        requires
            previewable(content@),
        ensures
            res.id@ == id@,
            res.chunk_index == chunk_index,
            res.content_preview@ == preview_of(content@),
    {
        MemoryCreated { id, chunk_index, content_preview: content_preview(content) }
    }
}

/// The error for a file over the upload limit.
pub open spec fn too_large_message(len: nat, max: nat) -> Seq<char> {
    "file too large: "@ + decimal(len) + " bytes (max: "@ + decimal(max) + ")"@
}

/// Refuse a file larger than the upload limit.
pub fn check_file_size(len: usize, max: usize) -> (res: Result<(), AppError>)
    ensures
        len <= max <==> res is Ok,
        res matches Err(e) ==> e matches AppError::BadRequest(m) && m@ == too_large_message(
            len as nat,
            max as nat,
        ),
{
    if len <= max {
        return Ok(());
    }
    let mut m = String::from_str("file too large: ");
    push_decimal(&mut m, len as u64);
    m.append(" bytes (max: ");
    push_decimal(&mut m, max as u64);
    m.append(")");
    proof {
        reveal_strlit("file too large: ");
        reveal_strlit(" bytes (max: ");
        reveal_strlit(")");
    }
    Err(AppError::BadRequest(m))
}

/// The fields of an upload form.
#[derive(Debug, Clone)]
pub struct UploadRequest {
    pub file: Option<Vec<u8>>,
    pub file_name: Option<String>,
    pub space_id: Option<String>,
    pub provenance: Option<Provenance>,
    pub chunk_size: Option<usize>,
}

/// What an accepted upload is parsed and stored with.
#[derive(Debug, Clone)]
pub struct UploadPlan {
    pub bytes: Vec<u8>,
    pub file_name: String,
    pub file_type: FileType,
    pub space_id: String,
    pub provenance: Provenance,
    pub chunk_size: usize,
}

/// The file type a file name selects.
pub open spec fn name_type(name: Seq<char>) -> Option<FileType> {
    extension_type(trim_leading_dots(lowercase_of(after_last_dot(name))))
}

impl UploadRequest {
    /// Check an upload form: it needs a file with a name of a supported type.
    /// The space defaults to `sp_default`, the provenance to human, and the
    /// chunk size to the configured one.
    pub fn plan(self, default_chunk_size: usize) -> (res: Result<UploadPlan, AppError>)
        ensures
            match (self.file, self.file_name) {
                (None, _) => res matches Err(AppError::BadRequest(m)) && m@ == "missing 'file' field"@,
                (Some(_), None) => res matches Err(AppError::BadRequest(m)) && m@
                    == "missing file name"@,
                (Some(b), Some(n)) => match name_type(n@) {
                    None => res matches Err(AppError::BadRequest(m)) && m@
                        == unsupported_file_message(n@),
                    Some(t) => res matches Ok(p) && {
                        &&& p.bytes@ == b@
                        &&& p.file_name@ == n@
                        &&& p.file_type == t
                        &&& p.space_id@ == space_or_default(self.space_id)
                        &&& p.provenance == match self.provenance {
                            Some(v) => v,
                            None => Provenance::Human,
                        }
                        &&& p.chunk_size == match self.chunk_size {
                            Some(c) => c,
                            None => default_chunk_size,
                        }
                    },
                },
            },
    {
        proof {
            reveal_strlit("missing 'file' field");
            reveal_strlit("missing file name");
        }
        let bytes = match self.file {
            Some(b) => b,
            None => {
                return Err(AppError::BadRequest(String::from_str("missing 'file' field")));
            },
        };
        let file_name = match self.file_name {
            Some(n) => n,
            None => {
                return Err(AppError::BadRequest(String::from_str("missing file name")));
            },
        };
        let file_type = parser_for_file(file_name.as_str())?;
        let space_id = default_space(&self.space_id);
        let provenance = match self.provenance {
            Some(v) => v,
            None => Provenance::Human,
        };
        let chunk_size = match self.chunk_size {
            Some(c) => c,
            None => default_chunk_size,
        };
        Ok(UploadPlan { bytes, file_name, file_type, space_id, provenance, chunk_size })
    }
}

impl UploadResponse {
    /// The answer to an upload.
    pub fn new(plan: &UploadPlan, total_chunks: usize, memories_created: Vec<MemoryCreated>, processing_time_ms: u64) -> (res: Self)
        ensures
            res.file_name@ == plan.file_name@,
            res.file_type@ == crate::parse::file_type_name(plan.file_type),
            res.total_chunks == total_chunks,
            res.memories_created == memories_created,
            res.processing_time_ms == processing_time_ms,
    {
        UploadResponse {
            file_name: plan.file_name.clone(),
            file_type: String::from_str(plan.file_type.as_str()),
            total_chunks,
            memories_created,
            processing_time_ms,
        }
    }
}

} // verus!
