//! Extraction: the text that a list of selectors finds in a document.

use crate::markup::{select_text_nodes, selected_text, selector_parses, within_limit};
use crate::text::{concat, concat_strings};
use vstd::prelude::*;
use vstd::string::*;

verus! {

/// The text of matched elements: every element's text nodes concatenated,
/// the elements one after another, with no separator anywhere.
pub open spec fn matched_text(found: Seq<Seq<Seq<char>>>) -> Seq<char>
    decreases found.len(),
{
    if found.len() == 0 {
        Seq::<char>::empty()
    } else {
        matched_text(found.drop_last()) + concat(found.last())
    }
}

/// What one selector contributes: the text of the elements it matches, or
/// nothing where it does not parse.
pub open spec fn selector_text(html: Seq<char>, selector: Seq<char>) -> Seq<char> {
    if selector_parses(selector) {
        matched_text(selected_text(html, selector))
    } else {
        Seq::<char>::empty()
    }
}

/// What a list of selectors extracts: the contribution of each, in the order
/// of the list, with no separator.
pub open spec fn extracted_text(html: Seq<char>, selectors: Seq<Seq<char>>) -> Seq<char>
    decreases selectors.len(),
{
    if selectors.len() == 0 {
        Seq::<char>::empty()
    } else {
        extracted_text(html, selectors.drop_last()) + selector_text(html, selectors.last())
    }
}

/// Extraction follows the order of the selectors: what two lists extract one
/// after the other is what the joined list extracts.
pub proof fn law_extraction_follows_selector_order(
    html: Seq<char>,
    first: Seq<Seq<char>>,
    second: Seq<Seq<char>>,
)
    ensures
        extracted_text(html, first + second) == extracted_text(html, first) + extracted_text(
            html,
            second,
        ),
    decreases second.len(),
{
    if second.len() == 0 {
        assert(first + second =~= first);
        assert(extracted_text(html, first) + Seq::<char>::empty() =~= extracted_text(html, first));
    } else {
        law_extraction_follows_selector_order(html, first, second.drop_last());
        assert((first + second).drop_last() =~= first + second.drop_last());
        assert((first + second).last() == second.last());
        assert(extracted_text(html, first + second) =~= extracted_text(html, first)
            + extracted_text(html, second));
    }
}

/// The same for matched elements: their text is the text of the first ones
/// followed by the text of the rest, with nothing added or removed between.
pub proof fn law_matched_text_follows_element_order(
    first: Seq<Seq<Seq<char>>>,
    second: Seq<Seq<Seq<char>>>,
)
    ensures
        matched_text(first + second) == matched_text(first) + matched_text(second),
    decreases second.len(),
{
    if second.len() == 0 {
        assert(first + second =~= first);
        assert(matched_text(first) + Seq::<char>::empty() =~= matched_text(first));
    } else {
        law_matched_text_follows_element_order(first, second.drop_last());
        assert((first + second).drop_last() =~= first + second.drop_last());
        assert((first + second).last() == second.last());
        assert(matched_text(first + second) =~= matched_text(first) + matched_text(second));
    }
}

/// Concatenates the text nodes of matched elements.
pub fn gather_text(found: &Vec<Vec<String>>) -> (text: String)
    ensures
        text@ == matched_text(found.deep_view()),
{
    let mut text = String::new();
    let mut i: usize = 0;
    let ghost all = found.deep_view();
    proof {
        assert(all.take(0) =~= Seq::<Seq<Seq<char>>>::empty());
    }
    while i < found.len()
        invariant
            i <= found.len(),
            all == found.deep_view(),
            text@ == matched_text(all.take(i as int)),
        decreases found.len() - i,
    {
        let inner = concat_strings(&found[i]);
        proof {
            let cur = all.take(i + 1);
            assert(cur.drop_last() =~= all.take(i as int));
            assert(cur.last() == found@[i as int].deep_view());
        }
        text.append(inner.as_str());
        i = i + 1;
    }
    proof {
        assert(all.take(found.len() as int) =~= all);
    }
    text
}

/// The text that one selector finds in the document, given what the engine
/// returned for it.
pub fn text_of(found: &Option<Vec<Vec<String>>>) -> (text: String)
    ensures
        text@ == match found {
            Some(elements) => matched_text(elements.deep_view()),
            None => Seq::<char>::empty(),
        },
{
    match found {
        Some(elements) => gather_text(elements),
        None => String::new(),
    }
}

/// Extracts the text that the selectors find in `html`: for each selector in
/// turn, the text of every element it matches, in the order in which the
/// engine yields them. A selector that does not parse contributes nothing.
/// The document must be within the engine's limit.
pub fn extract(html: &str, selectors: &Vec<String>) -> (text: String)
    requires
        within_limit(html@),
    ensures
        text@ == extracted_text(html@, selectors.deep_view()),
{
    let mut text = String::new();
    let mut i: usize = 0;
    let ghost all = selectors.deep_view();
    proof {
        assert(all.take(0) =~= Seq::<Seq<char>>::empty());
    }
    while i < selectors.len()
        invariant
            i <= selectors.len(),
            within_limit(html@),
            all == selectors.deep_view(),
            text@ == extracted_text(html@, all.take(i as int)),
        decreases selectors.len() - i,
    {
        let found = select_text_nodes(html, selectors[i].as_str());
        let part = text_of(&found);
        proof {
            let cur = all.take(i + 1);
            assert(cur.drop_last() =~= all.take(i as int));
            assert(cur.last() == selectors@[i as int]@);
        }
        text.append(part.as_str());
        i = i + 1;
    }
    proof {
        assert(all.take(selectors.len() as int) =~= all);
    }
    text
}

} // verus!
