//! Plain-text parser: paragraphs split at blank lines, long ones cut into
//! windows.

use crate::error::AppError;
use crate::parse::{chunk_text, chunk_texts, chunks_are, tagged, FileType, MemoryChunk};
use crate::text::{str_from_utf8, utf8_bytes, utf8_error_text};
use vstd::prelude::*;

verus! {

/// Plain-text document parser.
pub struct TextParser;

/// The error for bytes that are not UTF-8.
pub open spec fn invalid_utf8_message(bytes: Seq<u8>) -> Seq<char> {
    "invalid UTF-8: "@ + utf8_error_text(bytes)
}

/// Decode the bytes of an uploaded document, or give the bad-request error
/// for bytes that are not UTF-8.
pub fn decode_document(content: &[u8]) -> (res: Result<&str, AppError>)
    ensures
        match res {
            Ok(s) => vstd::utf8::valid_utf8(content@) && utf8_bytes(s@) == content@
                && s@ == vstd::utf8::decode_utf8(content@),
            Err(e) => !vstd::utf8::valid_utf8(content@) && (e matches AppError::BadRequest(m)
                && m@ == invalid_utf8_message(content@)),
        },
{
    match str_from_utf8(content) {
        Ok(s) => {
            proof {
                vstd::utf8::encode_utf8_decode_utf8(s@);
            }
            Ok(s)
        },
        Err(m) => {
            let mut msg = String::from_str("invalid UTF-8: ");
            msg.append(m.as_str());
            proof {
                reveal_strlit("invalid UTF-8: ");
            }
            Err(AppError::BadRequest(msg))
        },
    }
}

impl TextParser {
    /// Parse a UTF-8 text into chunks of paragraphs; a paragraph longer than
    /// `chunk_size` bytes is cut into windows of `chunk_size` characters
    /// overlapping by `chunk_overlap`.
    pub fn parse_with_chunk_size(&self, content: &[u8], chunk_size: usize, chunk_overlap: usize) -> (res: Result<Vec<MemoryChunk>, AppError>)
        ensures
            vstd::utf8::valid_utf8(content@) <==> res is Ok,
            res matches Ok(chunks) ==> chunks_are(
                chunks@,
                tagged(
                    chunk_texts(vstd::utf8::decode_utf8(content@), chunk_size as int, chunk_overlap as int),
                    FileType::Text,
                ),
            ),
            res matches Err(e) ==> e matches AppError::BadRequest(m) && m@ == invalid_utf8_message(
                content@,
            ),
    {
        let text = decode_document(content)?;
        Ok(chunk_text(text, chunk_size, chunk_overlap, FileType::Text))
    }

    /// The file types this parser reads.
    pub fn supported_types(&self) -> (res: Vec<FileType>)
        ensures
            res@ == seq![FileType::Text],
    {
        let mut v = Vec::new();
        v.push(FileType::Text);
        v
    }
}

} // verus!
