//! The page-title scraper: which two pages to fetch, what the title of a
//! fetched page is, and the line that names the winner of the race.

use vstd::prelude::*;
use vstd::string::*;
use crate::race::{settle, spec_settle, Either, Side};
use crate::text::{
    decimal, decimal_string, join, joined, option_text, show_option, shown_option, texts,
};
use crate::trace::Event;

verus! {

/// The number of pages that race.
pub const URL_COUNT: usize = 2;

/// The exit code of a run that was not given its arguments.
pub const MISUSE_EXIT_CODE: u8 = 2;

/// Why the arguments of the program cannot be used.
#[derive(Clone, Copy, Debug, PartialEq, Eq, Structural)]
pub enum ArgsError {
    /// Fewer than two addresses were given: `given` says how many.
    MissingArgument { given: usize },
}

/// The number of addresses among the arguments of a program, whose first
/// argument is its own name.
pub open spec fn given_urls(args: Seq<String>) -> nat {
    if args.len() == 0 {
        0
    } else {
        (args.len() - 1) as nat
    }
}

/// The two addresses to fetch: the arguments behind the program's name.
/// Further arguments are ignored. With fewer than two addresses the
/// arguments are rejected.
pub fn urls_from_args(args: &Vec<String>) -> (urls: Result<(String, String), ArgsError>)
    ensures
        given_urls(args@) >= URL_COUNT ==> urls is Ok && urls->Ok_0.0@ == args[1]@
            && urls->Ok_0.1@ == args[2]@,
        given_urls(args@) < URL_COUNT ==> urls == Err::<(String, String), ArgsError>(
            ArgsError::MissingArgument { given: given_urls(args@) as usize },
        ),
{
    if args.len() > URL_COUNT {
        Ok((args[1].clone(), args[2].clone()))
    } else if args.len() == 0 {
        Err(ArgsError::MissingArgument { given: 0 })
    } else {
        Err(ArgsError::MissingArgument { given: args.len() - 1 })
    }
}

/// The message for rejected arguments.
pub open spec fn spec_misuse_message(error: ArgsError) -> Seq<char> {
    match error {
        ArgsError::MissingArgument { given } => "missing argument: expected 2 URLs, got "@
            + decimal(given as nat),
    }
}

impl ArgsError {
    /// Writes the message for the user.
    pub fn message(&self) -> (text: String)
        ensures
            text@ == spec_misuse_message(*self),
    {
        match self {
            ArgsError::MissingArgument { given } => {
                let mut text = String::from_str("missing argument: expected 2 URLs, got ");
                let count = decimal_string(*given as u64);
                text.append(count.as_str());
                text
            },
        }
    }
}

/// The longest document, in bytes, that is handed to the HTML parser. The
/// parser keeps its text in buffers that hold less than 2^32 bytes and that
/// grow to the next power of two, and it may write three bytes for one that
/// it reads; below this length none of its buffers reaches that limit.
pub const MAX_DOCUMENT_BYTES: usize = 0x1000_0000;

/// The text nodes below the first `title` element that the HTML parser
/// finds in a document, in the order of the document, or `None` when it
/// finds no such element.
pub uninterp spec fn first_title_pieces(document: Seq<char>) -> Option<Seq<Seq<char>>>;

/// The texts of an optional list of strings.
pub open spec fn option_texts(pieces: Option<Vec<String>>) -> Option<Seq<Seq<char>>> {
    match pieces {
        None => None,
        Some(list) => Some(texts(list@)),
    }
}

/// Calls `trpl::Html::parse` on the document, `Html::select_first` with the
/// selector `title` on the result, and `text` on the element found, and
/// hands out the text nodes one for one. Trusted: which element is found
/// and what its text nodes hold is a function of the document alone, which
/// `first_title_pieces` names. Longer documents are left out because the
/// parser panics when one of its buffers passes its limit.
#[verifier::external_body]
fn title_pieces(document: &str) -> (pieces: Option<Vec<String>>)
    requires
        document.len() <= MAX_DOCUMENT_BYTES,
    ensures
        option_texts(pieces) == first_title_pieces(document@),
{
    trpl::Html::parse(document).select_first("title").map(
        |title| title.text().map(String::from).collect(),
    )
}

/// The title of a document, given what the parser finds in it: the text
/// nodes of its first `title` element put together.
pub open spec fn spec_title(found: Option<Seq<Seq<char>>>) -> Option<Seq<char>> {
    match found {
        None => None,
        Some(pieces) => Some(joined(pieces)),
    }
}

/// The title that the text nodes of a `title` element make up, or `None`
/// when no such element was found.
pub fn title_of(found: &Option<Vec<String>>) -> (title: Option<String>)
    ensures
        option_text(title) == spec_title(option_texts(*found)),
{
    match found {
        None => None,
        Some(pieces) => Some(join(pieces)),
    }
}

/// The title of a fetched page: the inner text of its first `title`
/// element, and `None` when it has none. A page of more than
/// `MAX_DOCUMENT_BYTES` bytes is not parsed and has no title.
pub fn page_title(response_text: &str) -> (title: Option<String>)
    ensures
        response_text.len() > MAX_DOCUMENT_BYTES ==> title is None,
        response_text.len() <= MAX_DOCUMENT_BYTES ==> option_text(title) == spec_title(
            first_title_pieces(response_text@),
        ),
{
    if response_text.len() > MAX_DOCUMENT_BYTES {
        None
    } else {
        let found = title_pieces(response_text);
        title_of(&found)
    }
}

/// The line that names the winner of the race.
pub open spec fn spec_winner_line(title: Option<Seq<char>>) -> Seq<char> {
    "The winner was "@ + shown_option(title)
}

/// Writes the line that names the winner of the race: its title as the
/// `Debug` form of an optional string shows it.
pub fn winner_line(title: &Option<String>) -> (line: String)
    ensures
        line@ == spec_winner_line(option_text(*title)),
{
    let mut line = String::from_str("The winner was ");
    let shown = show_option(title);
    line.append(shown.as_str());
    line
}

/// Writes the line for the outcome of a race between two title lookups.
pub fn announce(outcome: Either<Option<String>, Option<String>>) -> (line: String)
    ensures
        line@ == spec_winner_line(option_text(outcome.spec_into_inner())),
{
    let title = outcome.into_inner();
    winner_line(&title)
}

/// The text of the page that wins a race between two responses.
pub open spec fn winning_page(left: Event<&str>, right: Event<&str>) -> Seq<char> {
    match spec_settle(left.at_ms, right.at_ms).winner {
        Side::Left => left.item@,
        Side::Right => right.item@,
    }
}

/// The response whose title the scraper prints, when the response for the
/// first address arrives as `left` says and the one for the second as
/// `right` says: the one that arrives first, the first one on a tie. The
/// other is dropped and never looked at.
pub fn winning_response<'a>(left: Event<&'a str>, right: Event<&'a str>) -> (text: &'a str)
    ensures
        text@ == winning_page(left, right),
{
    match settle(left.at_ms, right.at_ms).winner {
        Side::Left => left.item,
        Side::Right => right.item,
    }
}

} // verus!
