use vstd::prelude::*;

use crate::note::block::blocks_v;
use crate::note::metadata::{body_of, decode_preamble, has_preamble, split_front_matter};
use crate::note::parse::{sp_blocks, take_blocks};
use crate::note::token::{tokenize, tokens_of, TokenV};

pub mod block;
pub mod laws;
pub mod metadata;
pub mod parse;
pub mod render;
pub mod span;
pub mod token;

pub use block::{Block, BlockKind, Line};
pub use metadata::Metadata;
pub use parse::{ParseError, SpanCtx};
pub use render::{Markdown, PlainText, Render};
pub use token::Token;
pub use span::{MarkupKind, MarkupSpan, MarkupTag, Span, TextSpan};

verus! {

/// The capability of yielding the markup-free text of a node: only the
/// text carried by its leaves, never any formatting.
pub trait TextContent {
    /// The text that `text_content` returns, as a mathematical value.
    spec fn text_spec(&self) -> Seq<char>;

    /// Returns the node's plain text, with all markup stripped.
    fn text_content(&self) -> (r: String)
        ensures
            r@ == self.text_spec(),
    ;
}

/// The identifier of a note: a string under a type of its own, ordered\n/// and hashed as the string is.
#[derive(Clone, Debug, PartialEq, Eq, PartialOrd, Ord, Hash)]
pub struct NoteId(pub String);

impl View for NoteId {
    type V = Seq<char>;

    open spec fn view(&self) -> Seq<char> {
        self.0@
    }
}

impl NoteId {
    /// The identifier as a string slice.
    pub fn as_str(&self) -> (r: &str)
        ensures
            r@ == self@,
    {
        self.0.as_str()
    }
}

impl From<String> for NoteId {
    fn from(value: String) -> (r: Self) {
        NoteId(value)
    }
}

impl vstd::std_specs::convert::FromSpecImpl<String> for NoteId {
    open spec fn obeys_from_spec() -> bool {
        true
    }

    open spec fn from_spec(v: String) -> Self {
        NoteId(v)
    }
}

impl From<&str> for NoteId {
    fn from(value: &str) -> (r: Self) {
        NoteId(value.to_owned())
    }
}

impl vstd::std_specs::convert::FromSpecImpl<&str> for NoteId {
    open spec fn obeys_from_spec() -> bool {
        false
    }

    open spec fn from_spec(v: &str) -> Self {
        NoteId(vstd::pervasive::arbitrary())
    }
}

/// The parse of a tokenized note body: the block values of the whole
/// stream, or the error on which the block builder stops.
pub open spec fn parse_body(toks: Seq<TokenV>) -> Result<Seq<crate::note::block::BlockV>, ParseError> {
    match sp_blocks(toks, 0, false) {
        Result::Ok((bs, j)) => Result::Ok(bs),
        Result::Err(e) => Result::Err(e),
    }
}

/// A parsed note: its identifier, its decoded preamble, and its body as
/// an ordered sequence of blocks.  A note is built whole by `create` and
/// read-only afterward.
#[derive(Debug)]
pub struct Note {
    pub id: NoteId,
    pub metadata: Metadata,
    pub content: Vec<Block>,
}

impl Note {
    /// Parses a note from its identifier and its raw text: the preamble is
    /// split off and decoded leniently into metadata — a missing or
    /// malformed preamble never fails the parse — and the body is
    /// tokenized and built into the block tree.  The result carries
    /// exactly the blocks that the body's token stream parses to, or the
    /// error on which the block builder stops.
    pub fn create(id: NoteId, text: &str) -> (r: Result<Note, ParseError>)
        ensures
            match r {
                Result::Ok(n) => {
                    &&& n.id == id
                    &&& parse_body(tokens_of(body_of(text@))) == Result::<
                        Seq<crate::note::block::BlockV>,
                        ParseError,
                    >::Ok(blocks_v(n.content@))
                    &&& !has_preamble(text@) ==> n.metadata.title is None
                        && n.metadata.created is None && n.metadata.modified is None
                },
                Result::Err(e) => parse_body(tokens_of(body_of(text@))) == Result::<
                    Seq<crate::note::block::BlockV>,
                    ParseError,
                >::Err(e),
            },
    {
        let (pod_opt, body) = split_front_matter(text);
        let metadata = decode_preamble(&pod_opt);
        let tokens = tokenize(body.as_str());
        match take_blocks(&tokens, 0, false) {
            Result::Ok((content, _consumed)) => Result::Ok(Note { id, metadata, content }),
            Result::Err(e) => Result::Err(e),
        }
    }
}

} // verus!
