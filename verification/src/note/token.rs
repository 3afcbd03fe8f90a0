use vstd::prelude::*;

use crate::note::block::BlockKind;
use crate::note::span::{kind_v, KindV, MarkupKind, MarkupTag};

verus! {

/// One structural event of the tokenized body text, as this library reads
/// it.  The tokenizer itself is an outside collaborator; its events are
/// converted to these plain values at the trust boundary, and every
/// construct the builders do not know keeps its place as one of the
/// `Unknown` tokens.
#[derive(Debug)]
pub enum Token {
    /// Start of a heading of the given level.
    HeaderStart(u8),
    /// End of a heading.
    HeaderEnd,
    /// Start of an ordered or unordered list.
    ListStart(BlockKind),
    /// End of a list.
    ListEnd,
    /// Start of one list item.
    ItemStart,
    /// End of one list item.
    ItemEnd,
    /// Start of a quotation.
    QuoteStart,
    /// End of a quotation.
    QuoteEnd,
    /// Start of a code block.
    CodeStart,
    /// End of a code block.
    CodeEnd,
    /// Start of an inline markup region of the given kind.
    MarkupStart(MarkupKind),
    /// End of the inline markup region with the given tag.
    MarkupEnd(MarkupTag),
    /// A run of literal text.
    Text(String),
    /// An inline code fragment, carried as one atom.
    InlineCode(String),
    /// A soft or hard line break inside inline content.
    Break,
    /// The start of a construct the library does not model.
    UnknownStart,
    /// The end of a construct the library does not model.
    UnknownEnd,
    /// Any other event the library does not model.
    Unknown,
}

/// The mathematical value of a `Token`.
pub enum TokenV {
    HeaderStart(u8),
    HeaderEnd,
    ListStart(BlockKind),
    ListEnd,
    ItemStart,
    ItemEnd,
    QuoteStart,
    QuoteEnd,
    CodeStart,
    CodeEnd,
    MarkupStart(KindV),
    MarkupEnd(MarkupTag),
    Text(Seq<char>),
    InlineCode(Seq<char>),
    Break,
    UnknownStart,
    UnknownEnd,
    Unknown,
}

/// The value of a token.
pub open spec fn token_v(t: Token) -> TokenV {
    match t {
        Token::HeaderStart(lv) => TokenV::HeaderStart(lv),
        Token::HeaderEnd => TokenV::HeaderEnd,
        Token::ListStart(k) => TokenV::ListStart(k),
        Token::ListEnd => TokenV::ListEnd,
        Token::ItemStart => TokenV::ItemStart,
        Token::ItemEnd => TokenV::ItemEnd,
        Token::QuoteStart => TokenV::QuoteStart,
        Token::QuoteEnd => TokenV::QuoteEnd,
        Token::CodeStart => TokenV::CodeStart,
        Token::CodeEnd => TokenV::CodeEnd,
        Token::MarkupStart(k) => TokenV::MarkupStart(kind_v(k)),
        Token::MarkupEnd(m) => TokenV::MarkupEnd(m),
        Token::Text(s) => TokenV::Text(s@),
        Token::InlineCode(s) => TokenV::InlineCode(s@),
        Token::Break => TokenV::Break,
        Token::UnknownStart => TokenV::UnknownStart,
        Token::UnknownEnd => TokenV::UnknownEnd,
        Token::Unknown => TokenV::Unknown,
    }
}

/// The values of a sequence of tokens, element by element.
pub open spec fn toks_v(s: Seq<Token>) -> Seq<TokenV>
    decreases s,
{
    if s.len() == 0 {
        Seq::empty()
    } else {
        seq![token_v(s[0])] + toks_v(s.drop_first())
    }
}

/// The length of the value sequence equals the length of the token sequence.
pub broadcast proof fn lemma_toks_v_len(s: Seq<Token>)
    ensures
        (#[trigger] toks_v(s)).len() == s.len(),
    decreases s,
{
    if s.len() > 0 {
        lemma_toks_v_len(s.drop_first());
    }
}

/// The value sequence of tokens is the element-wise value.
pub broadcast proof fn lemma_toks_v_index(s: Seq<Token>, i: int)
    requires
        0 <= i < s.len(),
    ensures
        #[trigger] toks_v(s)[i] == token_v(s[i]),
    decreases s,
{
    if i == 0 {
        assert(toks_v(s) == seq![token_v(s[0])] + toks_v(s.drop_first()));
    } else {
        lemma_toks_v_len(s.drop_first());
        lemma_toks_v_index(s.drop_first(), i - 1);
        assert(toks_v(s) == seq![token_v(s[0])] + toks_v(s.drop_first()));
        assert(toks_v(s)[i] == toks_v(s.drop_first())[i - 1]);
        assert(s.drop_first()[i - 1] == s[i]);
    }
}

/// The token stream that the markdown tokenizer yields for the body text
/// `s`.  Tokenizing is a pure function of the text, so the result bears
/// this name and nothing more is assumed of it.
pub uninterp spec fn tokens_of(s: Seq<char>) -> Seq<TokenV>;

#[verifier::external_type_specification]
#[verifier::external_body]
pub struct ExTag<'a>(pulldown_cmark::Tag<'a>);

/// Relies on pulldown_cmark's `Tag`: classifies the tag of a start event
/// into this library's token, one arm per recognized construct; every
/// other construct becomes `UnknownStart`.
#[verifier::external_body]
fn tag_start_token(t: pulldown_cmark::Tag<'_>) -> Token {
    match t {
        pulldown_cmark::Tag::Heading(lv, _, _) => Token::HeaderStart(lv as u8),
        pulldown_cmark::Tag::List(None) => Token::ListStart(BlockKind::Ul),
        pulldown_cmark::Tag::List(Some(_)) => Token::ListStart(BlockKind::Ol),
        pulldown_cmark::Tag::Item => Token::ItemStart,
        pulldown_cmark::Tag::BlockQuote => Token::QuoteStart,
        pulldown_cmark::Tag::CodeBlock(_) => Token::CodeStart,
        pulldown_cmark::Tag::Strong => Token::MarkupStart(MarkupKind::Strong),
        pulldown_cmark::Tag::Emphasis => Token::MarkupStart(MarkupKind::Emphasis),
        pulldown_cmark::Tag::Strikethrough => Token::MarkupStart(MarkupKind::Strikeout),
        pulldown_cmark::Tag::Link(_, dest, _) => Token::MarkupStart(
            MarkupKind::Link(dest.into_string()),
        ),
        _ => Token::UnknownStart,
    }
}

/// Relies on pulldown_cmark's `Tag`: the same classification for the tag
/// of an end event.
#[verifier::external_body]
fn tag_end_token(t: pulldown_cmark::Tag<'_>) -> Token {
    match t {
        pulldown_cmark::Tag::Heading(..) => Token::HeaderEnd,
        pulldown_cmark::Tag::List(_) => Token::ListEnd,
        pulldown_cmark::Tag::Item => Token::ItemEnd,
        pulldown_cmark::Tag::BlockQuote => Token::QuoteEnd,
        pulldown_cmark::Tag::CodeBlock(_) => Token::CodeEnd,
        pulldown_cmark::Tag::Strong => Token::MarkupEnd(MarkupTag::Strong),
        pulldown_cmark::Tag::Emphasis => Token::MarkupEnd(MarkupTag::Emphasis),
        pulldown_cmark::Tag::Strikethrough => Token::MarkupEnd(MarkupTag::Strikeout),
        pulldown_cmark::Tag::Link(..) => Token::MarkupEnd(MarkupTag::Link),
        _ => Token::UnknownEnd,
    }
}

/// Relies on pulldown_cmark's `Parser`: tokenizes the body text into this
/// library's tokens.  The tokenizer reads nothing but the text, so what it
/// yields is the pure function `tokens_of` of that text.
#[verifier::external_body]
pub(crate) fn tokenize(s: &str) -> (r: Vec<Token>)
    ensures
        toks_v(r@) == tokens_of(s@),
{
    pulldown_cmark::Parser::new(s).map(|e| match e {
        pulldown_cmark::Event::Start(t) => tag_start_token(t),
        pulldown_cmark::Event::End(t) => tag_end_token(t),
        pulldown_cmark::Event::Text(t) => Token::Text(t.into_string()),
        pulldown_cmark::Event::Code(t) => Token::InlineCode(t.into_string()),
        pulldown_cmark::Event::SoftBreak | pulldown_cmark::Event::HardBreak => Token::Break,
        _ => Token::Unknown,
    }).collect()
}

} // verus!
