//! What a file contributes to the index.
//!
//! The extension of a file name selects how the file is read: as a PDF
//! document, as a DOCX document, or as plain text. A document whose text
//! cannot be extracted contributes nothing and a warning, so that a run goes
//! on with the next file; a file that cannot be read at all is an error.

use crate::text::{chars_of, same_text, string_of_range};
use crate::AppError;
use vstd::prelude::*;

verus! {

/// How the content of a file is read.
#[derive(Debug, Clone, Copy, PartialEq, Eq, Structural)]
pub enum LoaderKind {
    PlainText,
    Pdf,
    Docx,
}

/// One item of a paragraph of a DOCX document: a run with its text, or
/// anything else.
#[derive(Debug)]
pub enum ParagraphContent {
    Run(String),
    Other,
}

/// One item of the body of a DOCX document: a paragraph with its items, or
/// anything else.
#[derive(Debug)]
pub enum BodyContent {
    Paragraph(Vec<ParagraphContent>),
    Other,
}

/// What came of reading a file.
#[derive(Debug)]
pub enum Extraction {
    /// The text of the file.
    Text(String),
    /// The file was read but its text could not be extracted: the document
    /// is malformed, or the extractor broke down on it.
    Failed(String),
    /// The file could not be read.
    Unreadable(String),
}

/// The contribution of a file: its text, and a warning where the text is
/// empty because the document could not be understood.
#[derive(Debug)]
pub struct LoadedFile {
    pub content: String,
    pub warning: Option<String>,
}

/// The place of the last `c` in `s`, or -1 where `s` holds none.
pub open spec fn last_index_of(s: Seq<char>, c: char) -> int
    decreases s.len(),
{
    if s.len() == 0 {
        -1
    } else if s.last() == c {
        s.len() - 1
    } else {
        last_index_of(s.drop_last(), c)
    }
}

/// The last component of a path: what follows the last slash.
pub open spec fn file_name_of(path: Seq<char>) -> Seq<char> {
    path.skip(last_index_of(path, '/') + 1)
}

/// The extension of a path: what follows the last dot of the file name.
/// A file name without a dot, or with its only dot in front, has none.
pub open spec fn extension_of(path: Seq<char>) -> Option<Seq<char>> {
    let name = file_name_of(path);
    let dot = last_index_of(name, '.');
    if dot <= 0 {
        None
    } else {
        Some(name.skip(dot + 1))
    }
}

/// How a file of the given name is read: `pdf` and `docx` select their
/// extractors, every other name is read as plain text.
pub open spec fn kind_of(path: Seq<char>) -> LoaderKind {
    match extension_of(path) {
        Some(ext) => if ext == "pdf"@ {
            LoaderKind::Pdf
        } else if ext == "docx"@ {
            LoaderKind::Docx
        } else {
            LoaderKind::PlainText
        },
        None => LoaderKind::PlainText,
    }
}

proof fn lemma_last_index_bounds(s: Seq<char>, c: char)
    ensures
        -1 <= last_index_of(s, c) < s.len(),
    decreases s.len(),
{
    if s.len() > 0 && s.last() != c {
        lemma_last_index_bounds(s.drop_last(), c);
    }
}

/// The place of the last `c` in `v[from..]`, counted from `from`.
fn last_index(v: &Vec<char>, from: usize, c: char) -> (at: Option<usize>)
    requires
        from <= v.len(),
    ensures
        match at {
            Some(i) => i == last_index_of(v@.skip(from as int), c),
            None => last_index_of(v@.skip(from as int), c) == -1,
        },
{
    let ghost s = v@.skip(from as int);
    let mut end: usize = v.len();
    assert(s.take(s.len() as int) == s);
    while end > from
        invariant
            from <= end <= v.len(),
            s == v@.skip(from as int),
            last_index_of(s, c) == last_index_of(s.take(end - from), c),
        decreases end,
    {
        let ghost part = s.take(end - from);
        assert(part.last() == v@[end - 1]);
        assert(part.drop_last() == s.take(end - 1 - from));
        if v[end - 1] == c {
            return Some(end - 1 - from);
        }
        end -= 1;
    }
    None
}

/// How the file `filename` is read.
pub fn loader_for(filename: &str) -> (kind: LoaderKind)
    ensures
        kind == kind_of(filename@),
{
    let path = chars_of(filename);
    proof {
        assert(path@.skip(0) == path@);
        lemma_last_index_bounds(path@, '/');
    }
    let start = match last_index(&path, 0, '/') {
        Some(i) => i + 1,
        None => 0,
    };
    let ghost name = file_name_of(filename@);
    assert(name == path@.skip(start as int));
    match last_index(&path, start, '.') {
        Some(dot) => {
            if dot == 0 {
                LoaderKind::PlainText
            } else {
                proof {
                    lemma_last_index_bounds(name, '.');
                }
                let ext = string_of_range(&path, start + dot + 1, path.len());
                assert(ext@ == name.skip(dot + 1));
                if same_text(ext.as_str(), "pdf") {
                    LoaderKind::Pdf
                } else if same_text(ext.as_str(), "docx") {
                    LoaderKind::Docx
                } else {
                    LoaderKind::PlainText
                }
            }
        },
        None => LoaderKind::PlainText,
    }
}

/// The text of a run, or nothing for any other item.
pub open spec fn item_text(item: ParagraphContent) -> Seq<char> {
    match item {
        ParagraphContent::Run(text) => text@,
        ParagraphContent::Other => Seq::empty(),
    }
}

/// The text of a paragraph: the texts of its runs, one after another.
pub open spec fn paragraph_text(items: Seq<ParagraphContent>) -> Seq<char>
    decreases items.len(),
{
    if items.len() == 0 {
        Seq::empty()
    } else {
        paragraph_text(items.drop_last()) + item_text(items.last())
    }
}

/// The text that one item of a body adds: a paragraph adds its text and a
/// line break, anything else adds nothing.
pub open spec fn element_text(element: BodyContent) -> Seq<char> {
    match element {
        BodyContent::Paragraph(items) => paragraph_text(items@) + seq!['\n'],
        BodyContent::Other => Seq::empty(),
    }
}

/// The text of a body: each paragraph on a line of its own.
pub open spec fn body_text(body: Seq<BodyContent>) -> Seq<char>
    decreases body.len(),
{
    if body.len() == 0 {
        Seq::empty()
    } else {
        body_text(body.drop_last()) + element_text(body.last())
    }
}

/// The text of the body of a DOCX document.
pub fn docx_text(body: &Vec<BodyContent>) -> (content: String)
    ensures
        content@ == body_text(body@),
{
    let mut content = String::new();
    let mut i: usize = 0;
    assert(body@.take(0) =~= Seq::<BodyContent>::empty());
    while i < body.len()
        invariant
            i <= body.len(),
            content@ == body_text(body@.take(i as int)),
        decreases body.len() - i,
    {
        assert(body@.take(i + 1).drop_last() =~= body@.take(i as int));
        assert(body@.take(i + 1).last() == body@[i as int]);
        let ghost before = content@;
        match &body[i] {
            BodyContent::Paragraph(items) => {
                let mut j: usize = 0;
                assert(items@.take(0) =~= Seq::<ParagraphContent>::empty());
                assert(before + Seq::<char>::empty() =~= before);
                while j < items.len()
                    invariant
                        j <= items.len(),
                        content@ == before + paragraph_text(items@.take(j as int)),
                    decreases items.len() - j,
                {
                    assert(items@.take(j + 1).drop_last() =~= items@.take(j as int));
                    assert(items@.take(j + 1).last() == items@[j as int]);
                    let ghost so_far = paragraph_text(items@.take(j as int));
                    match &items[j] {
                        ParagraphContent::Run(text) => {
                            content.append(text.as_str());
                            assert(content@ =~= before + (so_far + text@));
                        },
                        ParagraphContent::Other => {
                            assert(content@ =~= before + (so_far + Seq::<char>::empty()));
                        },
                    }
                    j += 1;
                }
                assert(items@.take(items.len() as int) =~= items@);
                content.push('\n');
                assert(content@ =~= before + (paragraph_text(items@) + seq!['\n']));
            },
            BodyContent::Other => {
                assert(content@ =~= before + Seq::<char>::empty());
            },
        }
        i += 1;
    }
    assert(body@.take(body.len() as int) =~= body@);
    content
}

/// The warning for a document of the file `filename` whose text could not
/// be extracted.
pub open spec fn extraction_warning(kind: LoaderKind, filename: Seq<char>, why: Seq<char>) -> Seq<
    char,
> {
    (if kind == LoaderKind::Pdf {
        "Failed to read PDF file '"@
    } else {
        "Failed to read DOCX file '"@
    }) + filename + "': "@ + why
}

/// Whether `r` is the contribution of the file `filename`, read as `kind`,
/// given what came of reading it. The text that was read is the content. A
/// PDF or DOCX document whose text could not be extracted contributes empty
/// content and a warning. A plain-text file that could not be decoded, and any
/// file that could not be read, is an I/O error.
pub open spec fn loads(
    filename: Seq<char>,
    kind: LoaderKind,
    extraction: Extraction,
    r: Result<LoadedFile, AppError>,
) -> bool {
    match extraction {
        Extraction::Text(text) => r matches Ok(file) && file.content == text && file.warning
            is None,
        Extraction::Failed(why) => if kind == LoaderKind::PlainText {
            r matches Err(e) && e == AppError::Io(why)
        } else {
            &&& r matches Ok(file)
            &&& file.content@.len() == 0
            &&& file.warning matches Some(w)
            &&& w@ == extraction_warning(kind, filename, why@)
        },
        Extraction::Unreadable(why) => r matches Err(e) && e == AppError::Io(why),
    }
}

/// Decides what the file `filename` contributes, given how it was read and
/// what came of reading it.
pub fn load_file(filename: &str, kind: LoaderKind, extraction: Extraction) -> (r: Result<
    LoadedFile,
    AppError,
>)
    ensures
        loads(filename@, kind, extraction, r),
{
    match extraction {
        Extraction::Text(text) => Ok(LoadedFile { content: text, warning: None }),
        Extraction::Failed(why) => {
            match kind {
                LoaderKind::PlainText => Err(AppError::Io(why)),
                _ => {
                    let mut w = match kind {
                        LoaderKind::Pdf => "Failed to read PDF file '".to_owned(),
                        _ => "Failed to read DOCX file '".to_owned(),
                    };
                    w.append(filename);
                    w.append("': ");
                    w.append(why.as_str());
                    Ok(LoadedFile { content: String::new(), warning: Some(w) })
                },
            }
        },
        Extraction::Unreadable(why) => Err(AppError::Io(why)),
    }
}

} // verus!
