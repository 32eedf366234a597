//! Validation of selector arguments.
//!
//! An argument is a comma-separated list of CSS selectors. It is accepted
//! when every piece between the commas parses; otherwise the pieces that do
//! not parse are named in an error message.

use crate::markup::{parses_as_selector, selector_parses};
use crate::text::{join, join_with, lemma_deep_view_push, split, split_on};
use vstd::prelude::*;
use vstd::string::*;

verus! {

/// The pieces that do not parse as selectors, in their order.
pub open spec fn rejected(pieces: Seq<Seq<char>>) -> Seq<Seq<char>> {
    pieces.filter(|piece: Seq<char>| !selector_parses(piece))
}

/// The message that names the invalid pieces.
pub open spec fn failure_message(invalid: Seq<Seq<char>>) -> Seq<char> {
    "Failed parsing selector(s): "@ + join_with(invalid, ", "@)
}

/// Success when nothing was invalid, the failure message otherwise.
pub open spec fn verdict(invalid: Seq<Seq<char>>) -> Result<(), Seq<char>> {
    if invalid.len() == 0 {
        Ok(())
    } else {
        Err(failure_message(invalid))
    }
}

/// The outcome of validating one argument.
pub open spec fn validation(input: Seq<char>) -> Result<(), Seq<char>> {
    verdict(rejected(split_on(input, ',')))
}

/// Whether an argument passes validation.
pub open spec fn accepted(input: Seq<char>) -> bool {
    validation(input) is Ok
}

/// A validation result with the message taken by its characters.
pub open spec fn shown(r: Result<(), String>) -> Result<(), Seq<char>> {
    match r {
        Ok(()) => Ok(()),
        Err(message) => Err(message@),
    }
}

/// Nothing is rejected exactly when every piece parses.
pub proof fn lemma_none_rejected(pieces: Seq<Seq<char>>)
    ensures
        rejected(pieces).len() == 0 <==> forall|i: int|
            0 <= i < pieces.len() ==> selector_parses(#[trigger] pieces[i]),
    decreases pieces.len(),
{
    reveal(Seq::filter);
    if pieces.len() > 0 {
        let shorter = pieces.drop_last();
        lemma_none_rejected(shorter);
        if rejected(pieces).len() == 0 {
            assert forall|i: int| 0 <= i < pieces.len() implies selector_parses(
                #[trigger] pieces[i],
            ) by {
                if i < shorter.len() {
                    assert(pieces[i] == shorter[i]);
                }
            }
        } else if selector_parses(pieces.last()) {
            let i = choose|i: int| 0 <= i < shorter.len() && !selector_parses(#[trigger] shorter[i]);
            assert(pieces[i] == shorter[i]);
        }
    }
}

/// An argument is accepted exactly when every piece between its commas
/// parses as a selector.
pub proof fn law_accepted_iff_every_piece_parses(input: Seq<char>)
    ensures
        accepted(input) <==> forall|i: int|
            0 <= i < split_on(input, ',').len() ==> selector_parses(
                #[trigger] split_on(input, ',')[i],
            ),
{
    lemma_none_rejected(split_on(input, ','));
}

/// Collects the pieces that do not parse as selectors.
pub fn invalid_selectors(pieces: &Vec<String>) -> (invalid: Vec<String>)
    ensures
        invalid.deep_view() == rejected(pieces.deep_view()),
{
    let mut invalid: Vec<String> = Vec::new();
    let mut i: usize = 0;
    let ghost all = pieces.deep_view();
    proof {
        reveal(Seq::filter);
        assert(all.take(0) =~= Seq::<Seq<char>>::empty());
        assert(invalid.deep_view() =~= Seq::<Seq<char>>::empty());
    }
    while i < pieces.len()
        invariant
            i <= pieces.len(),
            all == pieces.deep_view(),
            invalid.deep_view() == rejected(all.take(i as int)),
        decreases pieces.len() - i,
    {
        proof {
            reveal(Seq::filter);
            let cur = all.take(i + 1);
            assert(cur.drop_last() =~= all.take(i as int));
            assert(cur.last() == pieces@[i as int]@);
        }
        if !parses_as_selector(pieces[i].as_str()) {
            let piece = pieces[i].as_str().to_owned();
            let ghost held = invalid;
            invalid.push(piece);
            proof {
                lemma_deep_view_push(held, invalid, piece);
            }
        }
        i = i + 1;
    }
    proof {
        assert(all.take(pieces.len() as int) =~= all);
    }
    invalid
}

/// Turns the list of invalid pieces into the validation result: success for
/// an empty list, otherwise an error that names the pieces, separated by a
/// comma and a space.
pub fn report(invalid: &Vec<String>) -> (r: Result<(), String>)
    ensures
        shown(r) == verdict(invalid.deep_view()),
{
    if invalid.len() == 0 {
        Ok(())
    } else {
        let mut message = "Failed parsing selector(s): ".to_owned();
        let names = join(invalid, ", ");
        message.append(names.as_str());
        Err(message)
    }
}

/// Validates one selector argument: splits it at commas and checks that each
/// piece parses as a CSS selector.
pub fn selectors_validator(input: &str) -> (r: Result<(), String>)
    ensures
        shown(r) == validation(input@),
{
    let pieces = split(input, ',');
    let invalid = invalid_selectors(&pieces);
    report(&invalid)
}

} // verus!
