//! The command: selector arguments, an optional path, and what to do with
//! them.

use crate::extract::{extract, extracted_text};
use crate::markup::within_limit;
use crate::selectors::{accepted, selectors_validator, validation};
use crate::text::{trim, trimmed};
use vstd::prelude::*;
use vstd::string::*;

verus! {

/// The line to print for extracted text: the text without surrounding
/// whitespace, followed by a newline; nothing when the trimmed text is empty.
pub open spec fn output_line(all_text: Seq<char>) -> Option<Seq<char>> {
    let kept = trimmed(all_text);
    if kept.len() == 0 {
        None
    } else {
        Some(kept.push('\n'))
    }
}

/// An optional string taken by its characters.
pub open spec fn chars_of(s: Option<String>) -> Option<Seq<char>> {
    match s {
        Some(s) => Some(s@),
        None => None,
    }
}

/// Trims the extracted text and builds the line to print, if any.
pub fn render(all_text: &str) -> (line: Option<String>)
    ensures
        chars_of(line) == output_line(all_text@),
{
    let kept = trim(all_text);
    if kept.unicode_len() == 0 {
        None
    } else {
        let mut line = kept.to_owned();
        line.append("\n");
        proof {
            reveal_strlit("\n");
            assert("\n"@ =~= seq!['\n']);
            assert(kept@ + seq!['\n'] =~= kept@.push('\n'));
        }
        Some(line)
    }
}

/// The exit status that goes with a line to print: 0 when there is one, 1
/// when the selectors found no text.
pub open spec fn status_of(line: Option<Seq<char>>) -> int {
    if line is Some {
        0
    } else {
        1
    }
}

/// The exit status of a run that ended with this line, or with none.
pub fn exit_status(line: &Option<String>) -> (status: i32)
    ensures
        status == status_of(chars_of(*line)),
{
    match line {
        Some(_) => 0,
        None => 1,
    }
}

/// Where the document comes from.
#[derive(Debug)]
pub enum Source {
    /// Standard input, read to its end.
    Stdin,
    /// The file at this path.
    File(String),
    /// Nowhere: nothing is piped in and no path was given. The command then
    /// ends with status 1 after explaining its usage.
    Missing,
}

/// The mathematical value of a `Source`.
pub enum SourceView {
    Stdin,
    File(Seq<char>),
    Missing,
}

impl View for Source {
    type V = SourceView;

    open spec fn view(&self) -> SourceView {
        match self {
            Source::Stdin => SourceView::Stdin,
            Source::File(path) => SourceView::File(path@),
            Source::Missing => SourceView::Missing,
        }
    }
}

impl Source {
    /// The exit status that a source settles before anything is read: 1
    /// where there is nothing to read, none where there is a document to
    /// come.
    pub open spec fn early_status_of(source: SourceView) -> Option<i32> {
        if source is Missing {
            Some(1i32)
        } else {
            None
        }
    }

    /// The exit status with which the command ends at once, if this source
    /// ends it: status 1 when nothing is piped in and no path was given.
    pub fn early_status(&self) -> (status: Option<i32>)
        ensures
            status == Self::early_status_of(self@),
    {
        match self {
            Source::Missing => Some(1),
            _ => None,
        }
    }
}

/// The command's arguments.
#[derive(Debug)]
pub struct App {
    selectors: Vec<String>,
    path: Option<String>,
}

/// The mathematical value of an `App`.
pub struct AppView {
    pub selectors: Seq<Seq<char>>,
    pub path: Option<Seq<char>>,
}

impl View for App {
    type V = AppView;

    closed spec fn view(&self) -> AppView {
        AppView { selectors: self.selectors.deep_view(), path: chars_of(self.path) }
    }
}

impl App {
    /// Every selector argument has passed validation.
    pub open spec fn wf(&self) -> bool {
        forall|i: int| 0 <= i < self@.selectors.len() ==> accepted(#[trigger] self@.selectors[i])
    }

    /// Whether validating the argument fails with this message.
    pub open spec fn fails_with(argument: Seq<char>, message: Seq<char>) -> bool {
        validation(argument) == Err::<(), Seq<char>>(message)
    }

    /// The source to read when standard input is, or is not, a terminal.
    pub open spec fn source(&self, stdin_is_terminal: bool) -> SourceView {
        if !stdin_is_terminal {
            SourceView::Stdin
        } else {
            match self@.path {
                Some(path) => SourceView::File(path),
                None => SourceView::Missing,
            }
        }
    }

    /// The line that the command prints for a document, if any.
    pub open spec fn output(&self, html: Seq<char>) -> Option<Seq<char>> {
        output_line(extracted_text(html, self@.selectors))
    }

    /// Builds the command from its arguments, validating each selector
    /// argument in turn. The first argument that fails gives the error.
    pub fn new(selectors: Vec<String>, path: Option<String>) -> (r: Result<App, String>)
        ensures
            r is Ok <==> forall|i: int|
                0 <= i < selectors.len() ==> accepted(#[trigger] selectors.deep_view()[i]),
            r matches Ok(app) ==> app.wf() && app@ == (AppView {
                selectors: selectors.deep_view(),
                path: chars_of(path),
            }),
            r matches Err(message) ==> exists|i: int|
                0 <= i < selectors.len() && Self::fails_with(
                    #[trigger] selectors.deep_view()[i],
                    message@,
                ) && forall|j: int| 0 <= j < i ==> accepted(#[trigger] selectors.deep_view()[j]),
    {
        let mut i: usize = 0;
        while i < selectors.len()
            invariant
                i <= selectors.len(),
                forall|j: int| 0 <= j < i ==> accepted(#[trigger] selectors.deep_view()[j]),
            decreases selectors.len() - i,
        {
            let checked = selectors_validator(selectors[i].as_str());
            proof {
                assert(selectors.deep_view()[i as int] == selectors@[i as int]@);
            }
            match checked {
                Ok(()) => {},
                Err(message) => {
                    return Err(message);
                },
            }
            i = i + 1;
        }
        Ok(App { selectors, path })
    }

    /// Chooses the source of the document: piped input wins; at a terminal
    /// the path is used, and without one there is nothing to read.
    pub fn input(&self, stdin_is_terminal: bool) -> (source: Source)
        ensures
            source@ == self.source(stdin_is_terminal),
    {
        if !stdin_is_terminal {
            Source::Stdin
        } else {
            match &self.path {
                Some(path) => Source::File(path.as_str().to_owned()),
                None => Source::Missing,
            }
        }
    }

    /// Runs the extraction on a document and returns the line to print, or
    /// `None` when the selectors found no text. The document must be within
    /// the engine's limit, which `document_fits` tests.
    pub fn run(&self, html: &str) -> (line: Option<String>)
        requires
            within_limit(html@),
        ensures
            chars_of(line) == self.output(html@),
    {
        let all_text = extract(html, &self.selectors);
        render(all_text.as_str())
    }
}

/// Running twice on the same document with the same selectors gives the same
/// output, whatever the path arguments are.
pub proof fn law_output_is_determined(first: App, second: App, html: Seq<char>)
    requires
        first@.selectors == second@.selectors,
    ensures
        first.output(html) == second.output(html),
{
}

} // verus!
