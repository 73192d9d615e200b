use epicode_kb::error::AppError;
use epicode_kb::parse::docx::DocxParser;
use epicode_kb::parse::markdown::{split_long_text as split_sentences, MarkdownParser, MdEvent};
use epicode_kb::parse::pdf::PdfParser;
use epicode_kb::parse::text::TextParser;
use epicode_kb::parse::{
    chunk_text, parse_document, parser_for_file, split_long_text, split_paragraphs, ChunkMeta,
    FileType,
};

#[test]
fn file_types_from_extensions() {
    assert_eq!(FileType::from_extension("md"), Some(FileType::Markdown));
    assert_eq!(FileType::from_extension(".Markdown"), Some(FileType::Markdown));
    assert_eq!(FileType::from_extension("..TXT"), Some(FileType::Text));
    assert_eq!(FileType::from_extension("text"), Some(FileType::Text));
    assert_eq!(FileType::from_extension("pdf"), Some(FileType::Pdf));
    assert_eq!(FileType::from_extension("docx"), None);
    assert_eq!(FileType::from_extension(""), None);
}

#[test]
fn file_types_from_names() {
    assert_eq!(FileType::from_filename("notes.md"), Some(FileType::Markdown));
    assert_eq!(FileType::from_filename("report.final.PDF"), Some(FileType::Pdf));
    assert_eq!(FileType::from_filename("readme"), None);
    assert_eq!(FileType::from_filename("archive.tar.gz"), None);
    assert_eq!(FileType::from_filename("txt"), Some(FileType::Text));
}

#[test]
fn file_type_names() {
    assert_eq!(FileType::Markdown.as_str(), "markdown");
    assert_eq!(FileType::Text.as_str(), "text");
    assert_eq!(FileType::Pdf.as_str(), "pdf");
    assert_eq!(FileType::Docx.as_str(), "docx");
    for t in [FileType::Markdown, FileType::Text, FileType::Pdf] {
        assert_eq!(FileType::from_extension(t.as_str()), Some(t));
    }
}

#[test]
fn unsupported_file_is_refused() {
    match parser_for_file("data.exe") {
        Err(AppError::BadRequest(m)) => assert_eq!(m, "unsupported file type: data.exe"),
        other => panic!("unexpected {:?}", other),
    }
    assert_eq!(parser_for_file("a.txt").unwrap(), FileType::Text);
}

#[test]
fn paragraphs_split_at_blank_lines() {
    assert_eq!(split_paragraphs("a\n\nb\n\n\nc"), vec!["a", "b", "\nc"]);
    assert_eq!(split_paragraphs("one"), vec!["one"]);
    assert_eq!(split_paragraphs(""), vec![""]);
}

#[test]
fn windows_overlap() {
    assert_eq!(split_long_text("abcdefghij", 4, 1), vec!["abcd", "defg", "ghij"]);
    assert_eq!(split_long_text("abcdefghij", 4, 0), vec!["abcd", "efgh", "ij"]);
    assert_eq!(split_long_text("abcdefghij", 4, 9), vec!["abcd", "efgh", "ij"]);
    assert_eq!(split_long_text("abc", 0, 0), vec!["abc"]);
    let no_overlap = split_long_text("the quick brown fox", 5, 0).concat();
    assert_eq!(no_overlap, "the quick brown fox");
}

#[test]
fn chunk_text_numbers_chunks() {
    let chunks = chunk_text("  first  \n\n\n\nsecond para\n\n   ", 512, 64, FileType::Pdf);
    assert_eq!(chunks.len(), 2);
    assert_eq!(chunks[0].content, "first");
    assert_eq!(chunks[1].content, "second para");
    for (i, c) in chunks.iter().enumerate() {
        assert_eq!(c.chunk_index, i);
        assert!(matches!(c.metadata, Some(ChunkMeta::Source(FileType::Pdf))));
    }
}

#[test]
fn chunk_text_cuts_long_paragraphs() {
    let chunks = chunk_text("abcdefgh", 4, 0, FileType::Text);
    let contents: Vec<&str> = chunks.iter().map(|c| c.content.as_str()).collect();
    assert_eq!(contents, vec!["abcd", "efgh"]);
}

#[test]
fn text_parser_chunks_paragraphs() {
    let chunks = TextParser.parse_with_chunk_size(b"Hello\n\nWorld", 512, 64).unwrap();
    assert_eq!(chunks.len(), 2);
    assert_eq!(chunks[0].content, "Hello");
    assert_eq!(chunks[1].content, "World");
    assert!(matches!(chunks[1].metadata, Some(ChunkMeta::Source(FileType::Text))));
    assert!(TextParser.parse_with_chunk_size(b"   ", 512, 64).unwrap().is_empty());
    assert_eq!(TextParser.supported_types(), vec![FileType::Text]);
}

#[test]
fn text_parser_refuses_invalid_utf8() {
    match TextParser.parse_with_chunk_size(&[0x66, 0x80], 512, 64) {
        Err(AppError::BadRequest(m)) => assert!(m.starts_with("invalid UTF-8: ")),
        other => panic!("unexpected {:?}", other),
    }
}

#[test]
fn pdf_text_objects() {
    let pdf = b"%PDF-1.4\nBT\n(Hello) Tj\n(World (nested)) Tj\n() Tj\nET\n(outside) Tj\n";
    assert_eq!(PdfParser::extract_ascii_text(pdf), "Hello World (nested) \n");
    let unclosed = b"BT\n(open\nET";
    assert_eq!(PdfParser::extract_ascii_text(unclosed), "open \n");
    let chunks = PdfParser.parse_with_chunk_size(pdf, 512, 64).unwrap();
    assert_eq!(chunks.len(), 1);
    assert_eq!(chunks[0].content, "Hello World (nested)");
    assert!(PdfParser.parse_with_chunk_size(b"no text", 512, 64).unwrap().is_empty());
}

#[test]
fn docx_xml_text() {
    let xml = b"<w:p><w:t>Hello</w:t> <w:t>brave  new</w:t></w:p><w:p><w:t>world</w:t></w:p>";
    assert_eq!(DocxParser::extract_xml_text(xml), "Hello brave new world");
    let chunks = DocxParser.parse_with_chunk_size(xml, 512, 64).unwrap();
    assert_eq!(chunks.len(), 1);
    assert!(matches!(chunks[0].metadata, Some(ChunkMeta::Source(FileType::Docx))));
    match DocxParser.parse_with_chunk_size(b"<a><b/></a>", 512, 64) {
        Err(AppError::NotImplemented(m)) => {
            assert_eq!(m, "DOCX parsing requires the `docx` feature. Enable it or add `docx-rs`.")
        }
        other => panic!("unexpected {:?}", other),
    }
}

#[test]
fn sentence_packing() {
    assert_eq!(split_sentences("Hello. World. Foo.", 10), vec!["Hello.", "World.", "Foo."]);
    assert_eq!(split_sentences("abcdefghijklmnop", 5), vec!["abcde", "fghij", "klmno", "p"]);
    assert_eq!(split_sentences("Short one.", 100), vec!["Short one."]);
}

#[test]
fn markdown_chunks_by_heading() {
    let md = b"# Title\n\nSome text.\n\n## Sub\n\nMore.";
    let chunks = MarkdownParser.parse(md).unwrap();
    assert_eq!(chunks.len(), 2);
    assert_eq!(chunks[0].content, "TitleSome text.");
    assert!(matches!(&chunks[0].metadata, Some(ChunkMeta::Heading(h)) if h == "# Title"));
    assert_eq!(chunks[1].content, "SubMore.");
    assert!(matches!(&chunks[1].metadata, Some(ChunkMeta::Heading(h)) if h == "## Sub"));
    assert_eq!(chunks[1].chunk_index, 1);
}

#[test]
fn markdown_without_text_gives_whole_document() {
    let chunks = MarkdownParser.parse(b"   \n").unwrap();
    assert_eq!(chunks.len(), 1);
    assert_eq!(chunks[0].content, "");
    assert!(chunks[0].metadata.is_none());
}

#[test]
fn markdown_from_events() {
    let events = vec![
        MdEvent::HeadingStart(2),
        MdEvent::Text("Intro".to_string()),
        MdEvent::HeadingEnd,
        MdEvent::ParagraphStart,
        MdEvent::Text("line".to_string()),
        MdEvent::SoftBreak,
        MdEvent::Code("x = 1".to_string()),
        MdEvent::ParagraphEnd,
        MdEvent::ListStart,
        MdEvent::Text("item".to_string()),
        MdEvent::HardBreak,
        MdEvent::ListEnd,
        MdEvent::CodeBlockEnd,
        MdEvent::Other,
    ];
    let chunks = MarkdownParser::chunks_from_events("ignored", &events);
    assert_eq!(chunks.len(), 1);
    assert_eq!(chunks[0].content, "Introline\nx = 1\nitem");
    assert!(matches!(&chunks[0].metadata, Some(ChunkMeta::Heading(h)) if h == "## Intro"));
}

#[test]
fn markdown_long_section_is_split() {
    let long = "word ".repeat(200);
    let chunks = MarkdownParser::chunks_from_events("", &vec![MdEvent::Text(long)]);
    assert!(chunks.len() >= 2);
    for c in &chunks {
        assert!(c.content.len() <= 512);
        assert!(c.metadata.is_none());
    }
}

#[test]
fn document_dispatch() {
    let c = parse_document(FileType::Text, b"a\n\nb", 512, 64).unwrap();
    assert_eq!(c.len(), 2);
    let m = parse_document(FileType::Markdown, b"plain", 1, 0).unwrap();
    assert_eq!(m[0].content, "plain");
    assert!(parse_document(FileType::Docx, b"", 512, 64).is_err());
}
