//! Cutting documents into chunks.

use crate::error::ServerError;
use crate::text::{lemma_lowers_once, lowered, lowers_to, same_text, texts, to_lowercase};
use vstd::prelude::*;
use vstd::string::*;

verus! {

/// The chunks that `text_splitter::TextSplitter` cuts a plain text into.
pub uninterp spec fn plain_chunks(text: Seq<char>, capacity: usize) -> Seq<Seq<char>>;

/// The chunks that `text_splitter::MarkdownSplitter` cuts a markdown text into.
pub uninterp spec fn markdown_chunks(text: Seq<char>, capacity: usize) -> Seq<Seq<char>>;

/// `text_splitter::TextSplitter::chunks` with a capacity in characters. No chunk is
/// empty, and none has more characters than the capacity.
#[verifier::external_body]
pub(crate) fn split_plain(text: &str, capacity: usize) -> (r: Vec<String>)
    requires
        capacity > 0,
    ensures
        texts(r@) == plain_chunks(text@, capacity),
        forall|i: int| 0 <= i < r@.len() ==> 0 < (#[trigger] r@[i])@.len() <= capacity,
{
    let splitter = text_splitter::TextSplitter::new(capacity);
    splitter.chunks(text).map(|s| s.to_string()).collect()
}

/// `text_splitter::MarkdownSplitter::chunks` with a capacity in characters. No chunk
/// is empty, and none has more characters than the capacity.
#[verifier::external_body]
pub(crate) fn split_markdown(text: &str, capacity: usize) -> (r: Vec<String>)
    requires
        capacity > 0,
    ensures
        texts(r@) == markdown_chunks(text@, capacity),
        forall|i: int| 0 <= i < r@.len() ==> 0 < (#[trigger] r@[i])@.len() <= capacity,
{
    let splitter = text_splitter::MarkdownSplitter::new(capacity);
    splitter.chunks(text).map(|s| s.to_string()).collect()
}

/// How a document is cut.
#[derive(Debug, Clone, Copy, PartialEq, Eq, Structural)]
pub enum DocumentKind {
    Plain,
    Markdown,
}

/// The kind of a document, by its extension in lower case.
pub open spec fn kind_of(extension: Seq<char>) -> Option<DocumentKind> {
    if extension == "txt"@ {
        Some(DocumentKind::Plain)
    } else if extension == "md"@ {
        Some(DocumentKind::Markdown)
    } else {
        None
    }
}

/// The kind of a document, by its extension in lower case.
pub fn document_kind(extension: &str) -> (r: Option<DocumentKind>)
    ensures
        r == kind_of(extension@),
{
    if same_text(extension, "txt") {
        Some(DocumentKind::Plain)
    } else if same_text(extension, "md") {
        Some(DocumentKind::Markdown)
    } else {
        None
    }
}

/// Cuts a document into chunks, by its extension in any letter case: plain text or
/// markdown. Other documents are refused. A document that is cut needs room in its chunks.
pub fn chunk_text(text: &str, ty: &str, chunk_capacity: usize) -> (r: Result<Vec<String>, ServerError>)
    requires
        chunk_capacity > 0 || kind_of(lowered(ty@)) is None,
    ensures
        match kind_of(lowered(ty@)) {
            Some(DocumentKind::Plain) => r matches Ok(v) && texts(v@) == plain_chunks(
                text@,
                chunk_capacity,
            ),
            Some(DocumentKind::Markdown) => r matches Ok(v) && texts(v@) == markdown_chunks(
                text@,
                chunk_capacity,
            ),
            None => r matches Err(e) && e.is_operation(
                "Failed to upload the target file. Only files with 'txt' and 'md' extensions are supported."@,
            ),
        },
        forall|l: Seq<char>| #[trigger] lowers_to(ty@, l) ==> l == lowered(ty@),
        r matches Ok(v) ==> forall|i: int|
            0 <= i < v@.len() ==> 0 < (#[trigger] v@[i])@.len() <= chunk_capacity,
{
    let lower = to_lowercase(ty);
    proof {
        assert forall|l: Seq<char>| #[trigger] lowers_to(ty@, l) implies l == lower@ by {
            lemma_lowers_once(ty@, l, lower@);
        }
    }
    match document_kind(lower.as_str()) {
        Some(DocumentKind::Plain) => Ok(split_plain(text, chunk_capacity)),
        Some(DocumentKind::Markdown) => Ok(split_markdown(text, chunk_capacity)),
        None => Err(
            ServerError::operation(
                "Failed to upload the target file. Only files with 'txt' and 'md' extensions are supported.",
            ),
        ),
    }
}

/// Cuts a document into chunks as `chunk_text` does; nothing (`None`) where it could be cut
/// but its chunks have no room.
pub fn checked_chunk_text(text: &str, ty: &str, chunk_capacity: usize) -> (r: Option<
    Result<Vec<String>, ServerError>,
>)
    ensures
        match kind_of(lowered(ty@)) {
            Some(_) if chunk_capacity == 0 => r is None,
            Some(DocumentKind::Plain) => r matches Some(Ok(v)) && texts(v@) == plain_chunks(
                text@,
                chunk_capacity,
            ),
            Some(DocumentKind::Markdown) => r matches Some(Ok(v)) && texts(v@) == markdown_chunks(
                text@,
                chunk_capacity,
            ),
            None => r matches Some(Err(e)) && e.is_operation(
                "Failed to upload the target file. Only files with 'txt' and 'md' extensions are supported."@,
            ),
        },
        forall|l: Seq<char>| #[trigger] lowers_to(ty@, l) ==> l == lowered(ty@),
        r matches Some(Ok(v)) ==> forall|i: int|
            0 <= i < v@.len() ==> 0 < (#[trigger] v@[i])@.len() <= chunk_capacity,
{
    if chunk_capacity == 0 {
        let lower = to_lowercase(ty);
        proof {
            assert forall|l: Seq<char>| #[trigger] lowers_to(ty@, l) implies l == lower@ by {
                lemma_lowers_once(ty@, l, lower@);
            }
        }
        if document_kind(lower.as_str()).is_some() {
            return None;
        }
    }
    Some(chunk_text(text, ty, chunk_capacity))
}

} // verus!
