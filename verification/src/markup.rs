//! The binding to the HTML parser and CSS selector engine.
//!
//! Parsing HTML and matching selectors are the work of the `scraper` crate.
//! Nothing here is proved about them: the two wrappers below are believed,
//! and the rest of the library is proved against what they state.
//!
//! The engine holds text in buffers whose length and capacity are 32-bit
//! numbers, and it panics when one would grow past that. `within_limit` is
//! the bound on a document that keeps every buffer inside it.

use scraper::{Html, Selector};
use vstd::prelude::*;
use vstd::utf8::*;

verus! {

/// The longest document, in bytes of UTF-8, that is handed to the engine:
/// 2^29. A buffer of the engine holds at most 2^31 bytes, since its capacity
/// is rounded up to a power of two that must fit in 32 bits. Text taken from
/// a document can grow to three times its length, where one-byte NUL
/// characters are replaced by the three-byte replacement character, and
/// three times 2^29 is below 2^31.
pub const MAX_DOCUMENT_BYTES: usize = 536_870_912;

/// Whether a document is short enough for the engine.
pub open spec fn within_limit(html: Seq<char>) -> bool {
    encode_utf8(html).len() <= MAX_DOCUMENT_BYTES
}

/// Tests whether a document is short enough for the engine.
pub fn document_fits(html: &str) -> (ok: bool)
    ensures
        ok == within_limit(html@),
{
    html.as_bytes().len() <= MAX_DOCUMENT_BYTES
}

/// Whether `scraper::Selector::parse` accepts the text as a CSS selector
/// group.
pub uninterp spec fn selector_parses(selector: Seq<char>) -> bool;

/// What the selector finds in the document that `html` parses to: for each
/// element that `scraper::Html::select` yields, in the order in which it
/// yields them, the text nodes that `scraper::ElementRef::text` yields for
/// it, in that order. Meaningful only where the selector parses.
pub uninterp spec fn selected_text(html: Seq<char>, selector: Seq<char>) -> Seq<Seq<Seq<char>>>;

/// Calls `scraper::Selector::parse` and reports whether it succeeded.
///
/// Believed, not proved: parsing depends on the text alone, so its success
/// is the fixed property `selector_parses` of that text.
#[verifier::external_body]
pub(crate) fn parses_as_selector(selector: &str) -> (ok: bool)
    ensures
        ok == selector_parses(selector@),
{
    Selector::parse(selector).is_ok()
}

/// Parses the selector with `scraper::Selector::parse` and the document with
/// `scraper::Html::parse_document`, walks `Html::select` and collects
/// `ElementRef::text` of every element found.
///
/// Believed, not proved: the result is `None` exactly when the selector does
/// not parse; otherwise it depends on the two texts alone and is what
/// `selected_text` names. The document must be within the limit: on a longer
/// one the engine's buffers overflow and it panics. As with any allocation,
/// running out of memory or of stack is not something the contract covers.
#[verifier::external_body]
pub(crate) fn select_text_nodes(html: &str, selector: &str) -> (found: Option<Vec<Vec<String>>>)
    requires
        within_limit(html@),
    ensures
        found.is_some() == selector_parses(selector@),
        found matches Some(elements) ==> elements.deep_view() == selected_text(html@, selector@),
{
    let selector = Selector::parse(selector).ok()?;
    let document = Html::parse_document(html);
    let mut elements = Vec::new();
    for element in document.select(&selector) {
        elements.push(element.text().map(String::from).collect());
    }
    Some(elements)
}

} // verus!
