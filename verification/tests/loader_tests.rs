use rag_rust::indexing::loader::{
    docx_text, load_file, loader_for, BodyContent, Extraction, LoaderKind, ParagraphContent,
};
use rag_rust::AppError;

fn run(text: &str) -> ParagraphContent {
    ParagraphContent::Run(text.to_string())
}

#[test]
fn the_extension_selects_the_loader() {
    assert_eq!(loader_for("report.pdf"), LoaderKind::Pdf);
    assert_eq!(loader_for("letter.docx"), LoaderKind::Docx);
    assert_eq!(loader_for("notes.txt"), LoaderKind::PlainText);
    assert_eq!(loader_for("notes.md"), LoaderKind::PlainText);
    assert_eq!(loader_for("archive.tar.pdf"), LoaderKind::Pdf);
    assert_eq!(loader_for("dir.d/report.pdf"), LoaderKind::Pdf);
}

#[test]
fn names_without_a_known_extension_are_plain_text() {
    assert_eq!(loader_for(""), LoaderKind::PlainText);
    assert_eq!(loader_for("README"), LoaderKind::PlainText);
    assert_eq!(loader_for(".pdf"), LoaderKind::PlainText);
    assert_eq!(loader_for("dir/.docx"), LoaderKind::PlainText);
    assert_eq!(loader_for("dir.pdf/README"), LoaderKind::PlainText);
    assert_eq!(loader_for("report.PDF"), LoaderKind::PlainText);
    assert_eq!(loader_for("report.pdf."), LoaderKind::PlainText);
    assert_eq!(loader_for("report.pdfx"), LoaderKind::PlainText);
    assert_eq!(loader_for("pdf"), LoaderKind::PlainText);
}

#[test]
fn the_loader_agrees_with_the_paths_of_the_standard_library() {
    for name in ["a.pdf", ".pdf", "a.b.docx", "x/y.pdf", "x.pdf/y", "a.", "a..pdf", "..pdf"] {
        let ext = std::path::Path::new(name).extension().and_then(|e| e.to_str());
        let expected = match ext {
            Some("pdf") => LoaderKind::Pdf,
            Some("docx") => LoaderKind::Docx,
            _ => LoaderKind::PlainText,
        };
        assert_eq!(loader_for(name), expected, "{}", name);
    }
}

#[test]
fn docx_text_is_one_line_per_paragraph() {
    let body = vec![
        BodyContent::Paragraph(vec![run("Hello, "), ParagraphContent::Other, run("world")]),
        BodyContent::Other,
        BodyContent::Paragraph(vec![]),
        BodyContent::Paragraph(vec![run("second")]),
    ];
    assert_eq!(docx_text(&body), "Hello, world\n\nsecond\n");
    assert_eq!(docx_text(&Vec::new()), "");
}

#[test]
fn text_that_was_read_is_the_content() {
    for kind in [LoaderKind::PlainText, LoaderKind::Pdf, LoaderKind::Docx] {
        let loaded = load_file("a", kind, Extraction::Text("content".to_string())).unwrap();
        assert_eq!(loaded.content, "content");
        assert_eq!(loaded.warning, None);
    }
}

#[test]
fn a_malformed_pdf_gives_empty_content_and_a_warning() {
    let loaded = load_file(
        "broken.pdf",
        LoaderKind::Pdf,
        Extraction::Failed("invalid file header".to_string()),
    )
    .unwrap();
    assert_eq!(loaded.content, "");
    assert_eq!(
        loaded.warning,
        Some("Failed to read PDF file 'broken.pdf': invalid file header".to_string())
    );
}

#[test]
fn a_malformed_docx_gives_empty_content_and_a_warning() {
    let loaded =
        load_file("broken.docx", LoaderKind::Docx, Extraction::Failed("no zip".to_string()))
            .unwrap();
    assert_eq!(loaded.content, "");
    assert_eq!(loaded.warning, Some("Failed to read DOCX file 'broken.docx': no zip".to_string()));
}

#[test]
fn an_unreadable_file_is_an_io_error() {
    for kind in [LoaderKind::PlainText, LoaderKind::Pdf, LoaderKind::Docx] {
        match load_file("a", kind, Extraction::Unreadable("permission denied".to_string())) {
            Err(AppError::Io(m)) => assert_eq!(m, "permission denied"),
            other => panic!("{:?}", other),
        }
    }
    match load_file("a.txt", LoaderKind::PlainText, Extraction::Failed("not UTF-8".to_string())) {
        Err(AppError::Io(m)) => assert_eq!(m, "not UTF-8"),
        other => panic!("{:?}", other),
    }
}
