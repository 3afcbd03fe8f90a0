use vstd::prelude::*;
use vstd::string::StringExecFns;

use crate::note::block::{
    block_v, blocks_v, lemma_blocks_v_cons, lemma_lines_v_cons, line_v, lines_v, Block, BlockKind,
    BlockV, Line, LineV,
};
use crate::note::span::{
    kind_v, lemma_spans_v_cons, lemma_spans_v_one, markup_tag, span_v, spans_v, tag_of, KindV,
    MarkupKind, MarkupSpan, MarkupTag, Span, SpanV, TextSpan,
};
use crate::note::token::{lemma_toks_v_index, lemma_toks_v_len, token_v, toks_v, Token, TokenV};

verus! {

/// Why a note's body fails to parse.  Problems below the block level are
/// recoverable and never reported: an unrecognized inline construct is
/// dropped.
#[derive(Clone, Copy, Debug, PartialEq, Eq, Structural)]
pub enum ParseError {
    /// The end marker of an inline or block context never came before the
    /// token stream ended.
    UnterminatedConstruct,
    /// A token stood where only a block construct may stand, and it opens
    /// none that the library knows.
    UnknownBlockConstruct,
}

/// What closes the current inline context: the end of a heading, or the
/// end of the markup region with the given tag.
#[derive(Clone, Copy, Debug, PartialEq, Eq, Structural)]
pub enum SpanCtx {
    Header,
    Markup(MarkupTag),
}

/// Whether the token closes the inline context.
pub open spec fn closes(ctx: SpanCtx, t: TokenV) -> bool {
    match (ctx, t) {
        (SpanCtx::Header, TokenV::HeaderEnd) => true,
        (SpanCtx::Markup(m), TokenV::MarkupEnd(m2)) => m == m2,
        _ => false,
    }
}

/// Puts a span in front of the spans of a successful inline parse.
pub open spec fn cons_span(x: SpanV, r: Result<(Seq<SpanV>, int), ParseError>) -> Result<
    (Seq<SpanV>, int),
    ParseError,
> {
    match r {
        Result::Ok((v, j)) => Result::Ok((seq![x] + v, j)),
        Result::Err(e) => Result::Err(e),
    }
}

/// Puts a span in front of the own spans of a successfully parsed line.
pub open spec fn cons_line(x: SpanV, r: Result<(LineV, int), ParseError>) -> Result<
    (LineV, int),
    ParseError,
> {
    match r {
        Result::Ok((l, j)) => Result::Ok((LineV { spans: seq![x] + l.spans, child: l.child }, j)),
        Result::Err(e) => Result::Err(e),
    }
}

/// Puts a line in front of the lines of a successfully parsed list body.
pub open spec fn cons_lines(x: LineV, r: Result<(Seq<LineV>, int), ParseError>) -> Result<
    (Seq<LineV>, int),
    ParseError,
> {
    match r {
        Result::Ok((v, j)) => Result::Ok((seq![x] + v, j)),
        Result::Err(e) => Result::Err(e),
    }
}

/// Puts a block in front of the blocks of a successfully parsed run.
pub open spec fn cons_block(x: BlockV, r: Result<(Seq<BlockV>, int), ParseError>) -> Result<
    (Seq<BlockV>, int),
    ParseError,
> {
    match r {
        Result::Ok((v, j)) => Result::Ok((seq![x] + v, j)),
        Result::Err(e) => Result::Err(e),
    }
}

/// The inline builder on token values: from position `i`, the spans
/// collected up to the marker that closes `ctx`, and the position just
/// after that marker.  Text, line breaks, inline code and recognized
/// markup become spans; any other token is dropped; a stream that ends
/// before the marker is an unterminated inline context.
pub open spec fn sp_spans(t: Seq<TokenV>, i: int, ctx: SpanCtx) -> Result<
    (Seq<SpanV>, int),
    ParseError,
>
    decreases t.len() - i, 0int,
{
    if i < 0 || i >= t.len() {
        Result::Err(ParseError::UnterminatedConstruct)
    } else if closes(ctx, t[i]) {
        Result::Ok((Seq::empty(), i + 1))
    } else {
        match t[i] {
            TokenV::Text(s) => cons_span(SpanV::Text(s), sp_spans(t, i + 1, ctx)),
            TokenV::Break => cons_span(SpanV::Text("\n"@), sp_spans(t, i + 1, ctx)),
            TokenV::InlineCode(s) => cons_span(
                SpanV::Markup(KindV::Code, seq![SpanV::Text(s)]),
                sp_spans(t, i + 1, ctx),
            ),
            TokenV::MarkupStart(k) => match sp_spans(t, i + 1, SpanCtx::Markup(tag_of(k))) {
                Result::Ok((inner, j)) => if i < j && j <= t.len() {
                    cons_span(SpanV::Markup(k, inner), sp_spans(t, j, ctx))
                } else {
                    Result::Err(ParseError::UnterminatedConstruct)
                },
                Result::Err(e) => Result::Err(e),
            },
            _ => sp_spans(t, i + 1, ctx),
        }
    }
}

/// The code-block builder: the verbatim text collected up to the end of
/// the code block, and the position just after it.
pub open spec fn sp_code(t: Seq<TokenV>, i: int) -> Result<(Seq<char>, int), ParseError>
    decreases t.len() - i, 0int,
{
    if i < 0 || i >= t.len() {
        Result::Err(ParseError::UnterminatedConstruct)
    } else {
        match t[i] {
            TokenV::CodeEnd => Result::Ok((Seq::empty(), i + 1)),
            TokenV::Text(s) => match sp_code(t, i + 1) {
                Result::Ok((u, j)) => Result::Ok((s + u, j)),
                Result::Err(e) => Result::Err(e),
            },
            _ => sp_code(t, i + 1),
        }
    }
}

/// The block builder at one block: position `i` holds the opening token
/// of a heading, list, code block or quotation; the result is that block
/// and the position just after its end marker.  Any other token is an
/// unknown block construct, a hard failure.
pub open spec fn sp_block(t: Seq<TokenV>, i: int) -> Result<(BlockV, int), ParseError>
    decreases t.len() - i, 1int,
{
    if i < 0 || i >= t.len() {
        Result::Err(ParseError::UnterminatedConstruct)
    } else {
        match t[i] {
            TokenV::HeaderStart(lv) => match sp_spans(t, i + 1, SpanCtx::Header) {
                Result::Ok((ss, j)) => Result::Ok((BlockV::Header(lv, ss), j)),
                Result::Err(e) => Result::Err(e),
            },
            TokenV::ListStart(kind) => match sp_lines(t, i + 1) {
                Result::Ok((ls, j)) => Result::Ok((BlockV::List(kind, ls), j)),
                Result::Err(e) => Result::Err(e),
            },
            TokenV::CodeStart => match sp_code(t, i + 1) {
                Result::Ok((s, j)) => Result::Ok((BlockV::Code(s), j)),
                Result::Err(e) => Result::Err(e),
            },
            TokenV::QuoteStart => match sp_blocks(t, i + 1, true) {
                Result::Ok((bs, j)) => Result::Ok((BlockV::Quote(bs), j)),
                Result::Err(e) => Result::Err(e),
            },
            _ => Result::Err(ParseError::UnknownBlockConstruct),
        }
    }
}

/// The line builder, entered just after the start of a list item: the
/// item's inline content, then at most one child block, then the item's
/// end marker.  A second block, or anything else between the child and
/// the end marker, is a hard failure; unknown inline tokens are dropped.
pub open spec fn sp_line(t: Seq<TokenV>, i: int) -> Result<(LineV, int), ParseError>
    decreases t.len() - i, 2int,
{
    if i < 0 || i >= t.len() {
        Result::Err(ParseError::UnterminatedConstruct)
    } else {
        match t[i] {
            TokenV::ItemEnd => Result::Ok(
                (LineV { spans: Seq::empty(), child: Option::None }, i + 1),
            ),
            TokenV::Text(s) => cons_line(SpanV::Text(s), sp_line(t, i + 1)),
            TokenV::Break => cons_line(SpanV::Text("\n"@), sp_line(t, i + 1)),
            TokenV::InlineCode(s) => cons_line(
                SpanV::Markup(KindV::Code, seq![SpanV::Text(s)]),
                sp_line(t, i + 1),
            ),
            TokenV::MarkupStart(k) => match sp_spans(t, i + 1, SpanCtx::Markup(tag_of(k))) {
                Result::Ok((inner, j)) => if i < j && j <= t.len() {
                    cons_line(SpanV::Markup(k, inner), sp_line(t, j))
                } else {
                    Result::Err(ParseError::UnterminatedConstruct)
                },
                Result::Err(e) => Result::Err(e),
            },
            TokenV::HeaderStart(_) | TokenV::ListStart(_) | TokenV::CodeStart
                | TokenV::QuoteStart => match sp_block(t, i) {
                Result::Ok((b, j)) => if j < t.len() {
                    if t[j] == TokenV::ItemEnd {
                        Result::Ok(
                            (
                                LineV { spans: Seq::empty(), child: Option::Some(Box::new(b)) },
                                j + 1,
                            ),
                        )
                    } else {
                        Result::Err(ParseError::UnknownBlockConstruct)
                    }
                } else {
                    Result::Err(ParseError::UnterminatedConstruct)
                },
                Result::Err(e) => Result::Err(e),
            },
            _ => sp_line(t, i + 1),
        }
    }
}

/// The list-body builder, entered just after the start of a list: one
/// line per item up to the list's end marker.  Between items only an item
/// start or the list's end may stand.
pub open spec fn sp_lines(t: Seq<TokenV>, i: int) -> Result<(Seq<LineV>, int), ParseError>
    decreases t.len() - i, 3int,
{
    if i < 0 || i >= t.len() {
        Result::Err(ParseError::UnterminatedConstruct)
    } else {
        match t[i] {
            TokenV::ListEnd => Result::Ok((Seq::empty(), i + 1)),
            TokenV::ItemStart => match sp_line(t, i + 1) {
                Result::Ok((l, j)) => if i < j && j <= t.len() {
                    cons_lines(l, sp_lines(t, j))
                } else {
                    Result::Err(ParseError::UnterminatedConstruct)
                },
                Result::Err(e) => Result::Err(e),
            },
            _ => Result::Err(ParseError::UnknownBlockConstruct),
        }
    }
}

/// The block-sequence builder: the blocks collected from position `i` up
/// to the end of the stream (at the top level), or up to the end marker
/// of the enclosing quotation (inside one, where a stream that ends first
/// is unterminated).
pub open spec fn sp_blocks(t: Seq<TokenV>, i: int, in_quote: bool) -> Result<
    (Seq<BlockV>, int),
    ParseError,
>
    decreases t.len() - i, 4int,
{
    if i < 0 || i > t.len() {
        Result::Err(ParseError::UnterminatedConstruct)
    } else if i == t.len() {
        if in_quote {
            Result::Err(ParseError::UnterminatedConstruct)
        } else {
            Result::Ok((Seq::empty(), i))
        }
    } else if in_quote && t[i] == TokenV::QuoteEnd {
        Result::Ok((Seq::empty(), i + 1))
    } else {
        match sp_block(t, i) {
            Result::Ok((b, j)) => if i < j && j <= t.len() {
                cons_block(b, sp_blocks(t, j, in_quote))
            } else {
                Result::Err(ParseError::UnterminatedConstruct)
            },
            Result::Err(e) => Result::Err(e),
        }
    }
}

/// Clones a markup kind, preserving its value.
fn clone_kind(k: &MarkupKind) -> (r: MarkupKind)
    ensures
        kind_v(r) == kind_v(*k),
{
    match k {
        MarkupKind::Strong => MarkupKind::Strong,
        MarkupKind::Emphasis => MarkupKind::Emphasis,
        MarkupKind::Underline => MarkupKind::Underline,
        MarkupKind::Strikeout => MarkupKind::Strikeout,
        MarkupKind::Code => MarkupKind::Code,
        MarkupKind::Tag => MarkupKind::Tag,
        MarkupKind::Link(t) => MarkupKind::Link(t.clone()),
    }
}

/// Whether the token closes the inline context, computed.
fn closes_tok(ctx: SpanCtx, tok: &Token) -> (r: bool)
    ensures
        r == closes(ctx, token_v(*tok)),
{
    match (ctx, tok) {
        (SpanCtx::Header, Token::HeaderEnd) => true,
        (SpanCtx::Markup(m), Token::MarkupEnd(m2)) => m == *m2,
        _ => false,
    }
}

/// The inline builder: consumes tokens from position `i` on, until the end
/// marker that closes `ctx`, and yields the spans and the position just
/// after that marker.
pub fn take_spans(t: &Vec<Token>, i: usize, ctx: SpanCtx) -> (r: Result<
    (Vec<Span>, usize),
    ParseError,
>)
    requires
        i <= t@.len(),
    ensures
        match r {
            Result::Ok((v, j)) => i < j <= t@.len() && sp_spans(toks_v(t@), i as int, ctx)
                == Result::<(Seq<SpanV>, int), ParseError>::Ok((spans_v(v@), j as int)),
            Result::Err(e) => sp_spans(toks_v(t@), i as int, ctx) == Result::<
                (Seq<SpanV>, int),
                ParseError,
            >::Err(e),
        },
    decreases t@.len() - i, 0int,
{
    proof {
        lemma_toks_v_len(t@);
        if i < t@.len() {
            lemma_toks_v_index(t@, i as int);
        }
    }
    if i == t.len() {
        return Result::Err(ParseError::UnterminatedConstruct);
    }
    let tok = &t[i];
    if closes_tok(ctx, tok) {
        let v: Vec<Span> = Vec::new();
        return Result::Ok((v, i + 1));
    }
    match tok {
        Token::Text(s) => match take_spans(t, i + 1, ctx) {
            Result::Ok((mut v, j)) => {
                let sp = Span::Text(TextSpan { text: s.clone() });
                let ghost gv = v@;
                v.insert(0, sp);
                proof {
                    assert(v@ =~= seq![sp] + gv);
                    lemma_spans_v_cons(sp, gv);
                }
                Result::Ok((v, j))
            },
            Result::Err(e) => Result::Err(e),
        },
        Token::Break => match take_spans(t, i + 1, ctx) {
            Result::Ok((mut v, j)) => {
                let sp = Span::Text(TextSpan { text: String::from_str("\n") });
                let ghost gv = v@;
                v.insert(0, sp);
                proof {
                    assert(v@ =~= seq![sp] + gv);
                    lemma_spans_v_cons(sp, gv);
                }
                Result::Ok((v, j))
            },
            Result::Err(e) => Result::Err(e),
        },
        Token::InlineCode(s) => match take_spans(t, i + 1, ctx) {
            Result::Ok((mut v, j)) => {
                let atom = Span::Text(TextSpan { text: s.clone() });
                let mut inner: Vec<Span> = Vec::new();
                let ghost gatom = atom;
                inner.push(atom);
                let sp = Span::Markup(MarkupSpan { kind: MarkupKind::Code, inner });
                let ghost gv = v@;
                v.insert(0, sp);
                proof {
                    assert(v@ =~= seq![sp] + gv);
                    lemma_spans_v_cons(sp, gv);
                    lemma_spans_v_one(gatom);
                }
                Result::Ok((v, j))
            },
            Result::Err(e) => Result::Err(e),
        },
        Token::MarkupStart(k) => match take_spans(t, i + 1, SpanCtx::Markup(markup_tag(k))) {
            Result::Ok((inner, j)) => match take_spans(t, j, ctx) {
                Result::Ok((mut v, j2)) => {
                    let sp = Span::Markup(MarkupSpan { kind: clone_kind(k), inner });
                    let ghost gv = v@;
                    v.insert(0, sp);
                    proof {
                        assert(v@ =~= seq![sp] + gv);
                        lemma_spans_v_cons(sp, gv);
                    }
                    Result::Ok((v, j2))
                },
                Result::Err(e) => Result::Err(e),
            },
            Result::Err(e) => Result::Err(e),
        },
        _ => take_spans(t, i + 1, ctx),
    }
}

/// The code-block builder: collects the verbatim text up to the end of
/// the code block.
pub fn take_code(t: &Vec<Token>, i: usize) -> (r: Result<(String, usize), ParseError>)
    requires
        i <= t@.len(),
    ensures
        match r {
            Result::Ok((s, j)) => i < j <= t@.len() && sp_code(toks_v(t@), i as int) == Result::<
                (Seq<char>, int),
                ParseError,
            >::Ok((s@, j as int)),
            Result::Err(e) => sp_code(toks_v(t@), i as int) == Result::<
                (Seq<char>, int),
                ParseError,
            >::Err(e),
        },
    decreases t@.len() - i, 0int,
{
    proof {
        lemma_toks_v_len(t@);
        if i < t@.len() {
            lemma_toks_v_index(t@, i as int);
        }
    }
    if i == t.len() {
        return Result::Err(ParseError::UnterminatedConstruct);
    }
    match &t[i] {
        Token::CodeEnd => Result::Ok((String::new(), i + 1)),
        Token::Text(s) => match take_code(t, i + 1) {
            Result::Ok((u, j)) => {
                let mut out = s.clone();
                out.append(u.as_str());
                Result::Ok((out, j))
            },
            Result::Err(e) => Result::Err(e),
        },
        _ => take_code(t, i + 1),
    }
}

/// The block builder at one block: position `i` must hold the opening
/// token of a heading, list, code block or quotation.
pub fn take_block(t: &Vec<Token>, i: usize) -> (r: Result<(Block, usize), ParseError>)
    requires
        i <= t@.len(),
    ensures
        match r {
            Result::Ok((b, j)) => i < j <= t@.len() && sp_block(toks_v(t@), i as int) == Result::<
                (BlockV, int),
                ParseError,
            >::Ok((block_v(b), j as int)),
            Result::Err(e) => sp_block(toks_v(t@), i as int) == Result::<
                (BlockV, int),
                ParseError,
            >::Err(e),
        },
    decreases t@.len() - i, 1int,
{
    proof {
        lemma_toks_v_len(t@);
        if i < t@.len() {
            lemma_toks_v_index(t@, i as int);
        }
    }
    if i == t.len() {
        return Result::Err(ParseError::UnterminatedConstruct);
    }
    match &t[i] {
        Token::HeaderStart(lv) => match take_spans(t, i + 1, SpanCtx::Header) {
            Result::Ok((spans, j)) => Result::Ok((Block::Header { level: *lv, spans }, j)),
            Result::Err(e) => Result::Err(e),
        },
        Token::ListStart(kind) => match take_lines_until(t, i + 1) {
            Result::Ok((items, j)) => Result::Ok((Block::List { kind: *kind, items }, j)),
            Result::Err(e) => Result::Err(e),
        },
        Token::CodeStart => match take_code(t, i + 1) {
            Result::Ok((text, j)) => Result::Ok((Block::Code { text }, j)),
            Result::Err(e) => Result::Err(e),
        },
        Token::QuoteStart => match take_blocks(t, i + 1, true) {
            Result::Ok((content, j)) => Result::Ok((Block::Quote { content }, j)),
            Result::Err(e) => Result::Err(e),
        },
        _ => Result::Err(ParseError::UnknownBlockConstruct),
    }
}

/// The line builder, entered just after the start of a list item:
/// collects the item's inline content, then at most one child block, up
/// to the item's end marker.
pub fn take_line(t: &Vec<Token>, i: usize) -> (r: Result<(Line, usize), ParseError>)
    requires
        i <= t@.len(),
    ensures
        match r {
            Result::Ok((l, j)) => i < j <= t@.len() && sp_line(toks_v(t@), i as int) == Result::<
                (LineV, int),
                ParseError,
            >::Ok((line_v(l), j as int)),
            Result::Err(e) => sp_line(toks_v(t@), i as int) == Result::<
                (LineV, int),
                ParseError,
            >::Err(e),
        },
    decreases t@.len() - i, 2int,
{
    proof {
        lemma_toks_v_len(t@);
        if i < t@.len() {
            lemma_toks_v_index(t@, i as int);
        }
    }
    if i == t.len() {
        return Result::Err(ParseError::UnterminatedConstruct);
    }
    match &t[i] {
        Token::ItemEnd => {
            let v: Vec<Span> = Vec::new();
            Result::Ok((Line { spans: v, child: Option::None }, i + 1))
        },
        Token::Text(s) => match take_line(t, i + 1) {
            Result::Ok((mut l, j)) => {
                let sp = Span::Text(TextSpan { text: s.clone() });
                let ghost gv = l.spans@;
                l.spans.insert(0, sp);
                proof {
                    assert(l.spans@ =~= seq![sp] + gv);
                    lemma_spans_v_cons(sp, gv);
                }
                Result::Ok((l, j))
            },
            Result::Err(e) => Result::Err(e),
        },
        Token::Break => match take_line(t, i + 1) {
            Result::Ok((mut l, j)) => {
                let sp = Span::Text(TextSpan { text: String::from_str("\n") });
                let ghost gv = l.spans@;
                l.spans.insert(0, sp);
                proof {
                    assert(l.spans@ =~= seq![sp] + gv);
                    lemma_spans_v_cons(sp, gv);
                }
                Result::Ok((l, j))
            },
            Result::Err(e) => Result::Err(e),
        },
        Token::InlineCode(s) => match take_line(t, i + 1) {
            Result::Ok((mut l, j)) => {
                let atom = Span::Text(TextSpan { text: s.clone() });
                let mut inner: Vec<Span> = Vec::new();
                let ghost gatom = atom;
                inner.push(atom);
                let sp = Span::Markup(MarkupSpan { kind: MarkupKind::Code, inner });
                let ghost gv = l.spans@;
                l.spans.insert(0, sp);
                proof {
                    assert(l.spans@ =~= seq![sp] + gv);
                    lemma_spans_v_cons(sp, gv);
                    lemma_spans_v_one(gatom);
                }
                Result::Ok((l, j))
            },
            Result::Err(e) => Result::Err(e),
        },
        Token::MarkupStart(k) => match take_spans(t, i + 1, SpanCtx::Markup(markup_tag(k))) {
            Result::Ok((inner, j)) => match take_line(t, j) {
                Result::Ok((mut l, j2)) => {
                    let sp = Span::Markup(MarkupSpan { kind: clone_kind(k), inner });
                    let ghost gv = l.spans@;
                    l.spans.insert(0, sp);
                    proof {
                        assert(l.spans@ =~= seq![sp] + gv);
                        lemma_spans_v_cons(sp, gv);
                    }
                    Result::Ok((l, j2))
                },
                Result::Err(e) => Result::Err(e),
            },
            Result::Err(e) => Result::Err(e),
        },
        Token::HeaderStart(_) | Token::ListStart(_) | Token::CodeStart | Token::QuoteStart => {
            match take_block(t, i) {
                Result::Ok((b, j)) => {
                    if j < t.len() {
                        proof {
                            lemma_toks_v_index(t@, j as int);
                        }
                        match &t[j] {
                            Token::ItemEnd => {
                                let v: Vec<Span> = Vec::new();
                                Result::Ok(
                                    (Line { spans: v, child: Option::Some(Box::new(b)) }, j + 1),
                                )
                            },
                            _ => Result::Err(ParseError::UnknownBlockConstruct),
                        }
                    } else {
                        Result::Err(ParseError::UnterminatedConstruct)
                    }
                },
                Result::Err(e) => Result::Err(e),
            }
        },
        _ => take_line(t, i + 1),
    }
}

/// The list-body builder, entered just after the start of a list: one
/// line per item, up to the list's end marker.
pub fn take_lines_until(t: &Vec<Token>, i: usize) -> (r: Result<(Vec<Line>, usize), ParseError>)
    requires
        i <= t@.len(),
    ensures
        match r {
            Result::Ok((v, j)) => i < j <= t@.len() && sp_lines(toks_v(t@), i as int) == Result::<
                (Seq<LineV>, int),
                ParseError,
            >::Ok((lines_v(v@), j as int)),
            Result::Err(e) => sp_lines(toks_v(t@), i as int) == Result::<
                (Seq<LineV>, int),
                ParseError,
            >::Err(e),
        },
    decreases t@.len() - i, 3int,
{
    proof {
        lemma_toks_v_len(t@);
        if i < t@.len() {
            lemma_toks_v_index(t@, i as int);
        }
    }
    if i == t.len() {
        return Result::Err(ParseError::UnterminatedConstruct);
    }
    match &t[i] {
        Token::ListEnd => {
            let v: Vec<Line> = Vec::new();
            Result::Ok((v, i + 1))
        },
        Token::ItemStart => match take_line(t, i + 1) {
            Result::Ok((l, j)) => match take_lines_until(t, j) {
                Result::Ok((mut v, j2)) => {
                    let ghost gl = l;
                    let ghost gv = v@;
                    v.insert(0, l);
                    proof {
                        assert(v@ =~= seq![gl] + gv);
                        lemma_lines_v_cons(gl, gv);
                    }
                    Result::Ok((v, j2))
                },
                Result::Err(e) => Result::Err(e),
            },
            Result::Err(e) => Result::Err(e),
        },
        _ => Result::Err(ParseError::UnknownBlockConstruct),
    }
}

/// The block-sequence builder: collects blocks from position `i` up to
/// the end of the stream, or, inside a quotation, up to the quotation's
/// end marker.
pub fn take_blocks(t: &Vec<Token>, i: usize, in_quote: bool) -> (r: Result<
    (Vec<Block>, usize),
    ParseError,
>)
    requires
        i <= t@.len(),
    ensures
        match r {
            Result::Ok((v, j)) => i <= j <= t@.len() && sp_blocks(toks_v(t@), i as int, in_quote)
                == Result::<(Seq<BlockV>, int), ParseError>::Ok((blocks_v(v@), j as int)),
            Result::Err(e) => sp_blocks(toks_v(t@), i as int, in_quote) == Result::<
                (Seq<BlockV>, int),
                ParseError,
            >::Err(e),
        },
    decreases t@.len() - i, 4int,
{
    proof {
        lemma_toks_v_len(t@);
        if i < t@.len() {
            lemma_toks_v_index(t@, i as int);
        }
    }
    if i == t.len() {
        if in_quote {
            return Result::Err(ParseError::UnterminatedConstruct);
        } else {
            let v: Vec<Block> = Vec::new();
            return Result::Ok((v, i));
        }
    }
    if in_quote {
        let is_quote_end = match &t[i] {
            Token::QuoteEnd => true,
            _ => false,
        };
        if is_quote_end {
            let v: Vec<Block> = Vec::new();
            return Result::Ok((v, i + 1));
        }
    }
    match take_block(t, i) {
        Result::Ok((b, j)) => match take_blocks(t, j, in_quote) {
            Result::Ok((mut v, j2)) => {
                let ghost gb = b;
                let ghost gv = v@;
                v.insert(0, b);
                proof {
                    assert(v@ =~= seq![gb] + gv);
                    lemma_blocks_v_cons(gb, gv);
                }
                Result::Ok((v, j2))
            },
            Result::Err(e) => Result::Err(e),
        },
        Result::Err(e) => Result::Err(e),
    }
}

/// The canonical token stream of one span: the events that the tokenizer
/// would yield for its markup-preserving rendering.
pub open spec fn ev_span(s: SpanV) -> Seq<TokenV>
    decreases s,
{
    match s {
        SpanV::Text(t) => seq![TokenV::Text(t)],
        SpanV::Markup(k, inner) => seq![TokenV::MarkupStart(k)] + ev_spans(inner) + seq![
            TokenV::MarkupEnd(tag_of(k)),
        ],
    }
}

/// The canonical token stream of a run of spans.
pub open spec fn ev_spans(ss: Seq<SpanV>) -> Seq<TokenV>
    decreases ss,
{
    if ss.len() == 0 {
        Seq::empty()
    } else {
        ev_span(ss[0]) + ev_spans(ss.drop_first())
    }
}

/// The canonical token stream of a line's optional child block.
pub open spec fn ev_child(c: Option<Box<BlockV>>) -> Seq<TokenV>
    decreases c,
{
    match c {
        Option::None => Seq::empty(),
        Option::Some(b) => ev_block(*b),
    }
}

/// The canonical token stream of one line.
pub open spec fn ev_line(l: LineV) -> Seq<TokenV>
    decreases l,
{
    seq![TokenV::ItemStart] + ev_spans(l.spans) + ev_child(l.child) + seq![TokenV::ItemEnd]
}

/// The canonical token stream of a sequence of lines.
pub open spec fn ev_lines(s: Seq<LineV>) -> Seq<TokenV>
    decreases s,
{
    if s.len() == 0 {
        Seq::empty()
    } else {
        ev_line(s[0]) + ev_lines(s.drop_first())
    }
}

/// The canonical token stream of one block.
pub open spec fn ev_block(b: BlockV) -> Seq<TokenV>
    decreases b,
{
    match b {
        BlockV::Header(lv, ss) => seq![TokenV::HeaderStart(lv)] + ev_spans(ss) + seq![
            TokenV::HeaderEnd,
        ],
        BlockV::List(kind, items) => seq![TokenV::ListStart(kind)] + ev_lines(items) + seq![
            TokenV::ListEnd,
        ],
        BlockV::Code(t) => seq![TokenV::CodeStart, TokenV::Text(t), TokenV::CodeEnd],
        BlockV::Quote(content) => seq![TokenV::QuoteStart] + ev_blocks(content) + seq![
            TokenV::QuoteEnd,
        ],
    }
}

/// The canonical token stream of a sequence of blocks.
pub open spec fn ev_blocks(s: Seq<BlockV>) -> Seq<TokenV>
    decreases s,
{
    if s.len() == 0 {
        Seq::empty()
    } else {
        ev_block(s[0]) + ev_blocks(s.drop_first())
    }
}

/// The token that closes an inline context.
pub open spec fn ctx_close(ctx: SpanCtx) -> TokenV {
    match ctx {
        SpanCtx::Header => TokenV::HeaderEnd,
        SpanCtx::Markup(m) => TokenV::MarkupEnd(m),
    }
}

/// Splits knowledge of a concatenation: where the tokens from `i` on read
/// `x + y`, the segment `x` lies at `i`, element by element, and `y`
/// follows at `i + x.len()`.
proof fn lemma_skip_split(t: Seq<TokenV>, i: int, x: Seq<TokenV>, y: Seq<TokenV>)
    requires
        0 <= i <= t.len(),
        t.skip(i) == x + y,
    ensures
        i + x.len() + y.len() == t.len(),
        t.skip(i + x.len()) =~= y,
        forall|k: int| 0 <= k < x.len() ==> t[i + k] == #[trigger] x[k],
        x.len() > 0 ==> t[i] == x[0],
        x.len() > 1 ==> t[i + 1] == x[1],
{
    assert(t.skip(i).len() == t.len() - i);
    assert((x + y).len() == x.len() + y.len());
    assert(i + x.len() + y.len() == t.len());
    assert forall|k: int| 0 <= k < x.len() implies t[i + k] == x[k] by {
        assert(t.skip(i)[k] == t[i + k]);
        assert((x + y)[k] == x[k]);
    }
    if x.len() > 0 {
        assert(t.skip(i)[0] == t[i]);
        assert((x + y)[0] == x[0]);
    }
    if x.len() > 1 {
        assert(t.skip(i)[1] == t[i + 1]);
        assert((x + y)[1] == x[1]);
    }
    assert(t.skip(i + x.len()).len() == y.len());
    assert forall|k: int| 0 <= k < y.len() implies t.skip(i + x.len())[k] == y[k] by {
        assert(t.skip(i + x.len())[k] == t[i + x.len() + k]);
        assert(t.skip(i)[x.len() + k] == (x + y)[x.len() + k]);
        assert((x + y)[x.len() + k] == y[k]);
    }
}

/// A block's canonical stream opens with the block's start token and has
/// at least its two delimiting tokens.
proof fn lemma_ev_block_head(b: BlockV)
    ensures
        ev_block(b).len() >= 2,
        ev_block(b)[0] == (match b {
            BlockV::Header(lv, _) => TokenV::HeaderStart(lv),
            BlockV::List(kind, _) => TokenV::ListStart(kind),
            BlockV::Code(_) => TokenV::CodeStart,
            BlockV::Quote(_) => TokenV::QuoteStart,
        }),
{
    match b {
        BlockV::Header(lv, ss) => {
            assert(ev_block(b)[0] == TokenV::HeaderStart(lv));
        },
        BlockV::List(kind, items) => {
            assert(ev_block(b)[0] == TokenV::ListStart(kind));
        },
        BlockV::Code(t) => {
            assert(ev_block(b)[0] == TokenV::CodeStart);
        },
        BlockV::Quote(content) => {
            assert(ev_block(b)[0] == TokenV::QuoteStart);
        },
    }
}

/// The inline builder inverts the canonical events: where the tokens from
/// `i` on read the events of `ss`, then the closing marker of `ctx`, the
/// builder yields exactly `ss` and stops just after that marker.
pub proof fn lemma_sp_spans_inverts(
    t: Seq<TokenV>,
    i: int,
    ss: Seq<SpanV>,
    ctx: SpanCtx,
    rest: Seq<TokenV>,
)
    requires
        0 <= i <= t.len(),
        t.skip(i) == ev_spans(ss) + seq![ctx_close(ctx)] + rest,
    ensures
        sp_spans(t, i, ctx) == Result::<(Seq<SpanV>, int), ParseError>::Ok(
            (ss, i + ev_spans(ss).len() + 1),
        ),
    decreases ev_spans(ss).len(), 0int,
{
    if ss.len() == 0 {
        assert(ev_spans(ss) =~= Seq::<TokenV>::empty());
        assert(t.skip(i) =~= seq![ctx_close(ctx)] + rest);
        lemma_skip_split(t, i, seq![ctx_close(ctx)], rest);
        assert(t[i] == ctx_close(ctx));
        assert(closes(ctx, t[i]));
        assert(ss =~= Seq::<SpanV>::empty());
    } else {
        let x = ss[0];
        let ss2 = ss.drop_first();
        assert(ev_spans(ss) == ev_span(x) + ev_spans(ss2));
        let tail = ev_spans(ss2) + seq![ctx_close(ctx)] + rest;
        assert(t.skip(i) =~= ev_span(x) + tail);
        lemma_skip_split(t, i, ev_span(x), tail);
        assert(seq![x] + ss2 =~= ss);
        match x {
            SpanV::Text(txt) => {
                assert(ev_span(x) =~= seq![TokenV::Text(txt)]);
                assert(t[i] == TokenV::Text(txt));
                assert(!closes(ctx, t[i]));
                assert(t.skip(i + 1) =~= tail);
                lemma_sp_spans_inverts(t, i + 1, ss2, ctx, rest);
            },
            SpanV::Markup(k, inner) => {
                let inner_tail = ev_spans(inner) + seq![TokenV::MarkupEnd(tag_of(k))] + tail;
                assert(ev_span(x) == seq![TokenV::MarkupStart(k)] + ev_spans(inner) + seq![
                    TokenV::MarkupEnd(tag_of(k)),
                ]);
                assert(t.skip(i) =~= seq![TokenV::MarkupStart(k)] + inner_tail);
                lemma_skip_split(t, i, seq![TokenV::MarkupStart(k)], inner_tail);
                assert(t[i] == TokenV::MarkupStart(k));
                assert(!closes(ctx, t[i]));
                let ctx2 = SpanCtx::Markup(tag_of(k));
                assert(t.skip(i + 1) =~= ev_spans(inner) + seq![ctx_close(ctx2)] + tail);
                lemma_sp_spans_inverts(t, i + 1, inner, ctx2, tail);
                let j = i + 1 + ev_spans(inner).len() + 1;
                assert(sp_spans(t, i + 1, ctx2) == Result::<(Seq<SpanV>, int), ParseError>::Ok(
                    (inner, j),
                ));
                assert(t.skip(j) =~= tail) by {
                    lemma_skip_split(t, i + 1, ev_spans(inner) + seq![ctx_close(ctx2)], tail);
                    assert(t.skip(i + 1 + (ev_spans(inner) + seq![ctx_close(ctx2)]).len())
                        =~= tail);
                };
                lemma_sp_spans_inverts(t, j, ss2, ctx, rest);
            },
        }
    }
}

/// The code-block builder inverts the canonical events of a code block's
/// body: one verbatim text token, then the block's end marker.
pub proof fn lemma_sp_code_inverts(t: Seq<TokenV>, i: int, txt: Seq<char>, rest: Seq<TokenV>)
    requires
        0 <= i <= t.len(),
        t.skip(i) == seq![TokenV::Text(txt), TokenV::CodeEnd] + rest,
    ensures
        sp_code(t, i) == Result::<(Seq<char>, int), ParseError>::Ok((txt, i + 2)),
{
    lemma_skip_split(t, i, seq![TokenV::Text(txt), TokenV::CodeEnd], rest);
    assert(seq![TokenV::Text(txt), TokenV::CodeEnd][0] == TokenV::Text(txt));
    assert(seq![TokenV::Text(txt), TokenV::CodeEnd][1] == TokenV::CodeEnd);
    assert(t[i] == TokenV::Text(txt));
    assert(t[i + 1] == TokenV::CodeEnd);
    assert(sp_code(t, i + 1) == Result::<(Seq<char>, int), ParseError>::Ok(
        (Seq::empty(), i + 2),
    ));
    assert(txt + Seq::<char>::empty() =~= txt);
}

/// The line builder inverts the canonical events of a line's body: its
/// spans' events, its child's events where one is present, then the
/// item's end marker.
pub proof fn lemma_sp_line_inverts(t: Seq<TokenV>, i: int, l: LineV, rest: Seq<TokenV>)
    requires
        0 <= i <= t.len(),
        t.skip(i) == ev_spans(l.spans) + ev_child(l.child) + seq![TokenV::ItemEnd] + rest,
    ensures
        sp_line(t, i) == Result::<(LineV, int), ParseError>::Ok(
            (l, i + ev_spans(l.spans).len() + ev_child(l.child).len() + 1),
        ),
    decreases ev_spans(l.spans).len() + ev_child(l.child).len(), 2int,
{
    if l.spans.len() == 0 {
        assert(ev_spans(l.spans) =~= Seq::<TokenV>::empty());
        match l.child {
            Option::None => {
                assert(ev_child(l.child) =~= Seq::<TokenV>::empty());
                assert(t.skip(i) =~= seq![TokenV::ItemEnd] + rest);
                lemma_skip_split(t, i, seq![TokenV::ItemEnd], rest);
                assert(seq![TokenV::ItemEnd][0] == TokenV::ItemEnd);
                assert(t[i] == TokenV::ItemEnd);
                assert(l =~= LineV { spans: Seq::empty(), child: Option::None });
            },
            Option::Some(b) => {
                assert(ev_child(l.child) == ev_block(*b));
                let tail = seq![TokenV::ItemEnd] + rest;
                assert(t.skip(i) =~= ev_block(*b) + tail);
                lemma_ev_block_head(*b);
                lemma_skip_split(t, i, ev_block(*b), tail);
                lemma_sp_block_inverts(t, i, *b, tail);
                let j = i + ev_block(*b).len();
                assert(t.skip(j) =~= tail);
                assert(tail[0] == TokenV::ItemEnd);
                assert(t[j] == TokenV::ItemEnd) by {
                    assert(t.skip(j)[0] == t[j]);
                };
                assert(t[i] == ev_block(*b)[0]);
                assert(!closes(SpanCtx::Header, t[i]));
                assert(l =~= LineV { spans: Seq::empty(), child: Option::Some(Box::new(*b)) });
            },
        }
    } else {
        let x = l.spans[0];
        let ss2 = l.spans.drop_first();
        let l2 = LineV { spans: ss2, child: l.child };
        assert(ev_spans(l.spans) == ev_span(x) + ev_spans(ss2));
        let tail = ev_spans(ss2) + ev_child(l.child) + seq![TokenV::ItemEnd] + rest;
        assert(t.skip(i) =~= ev_span(x) + tail);
        lemma_skip_split(t, i, ev_span(x), tail);
        assert(seq![x] + ss2 =~= l.spans);
        match x {
            SpanV::Text(txt) => {
                assert(ev_span(x) =~= seq![TokenV::Text(txt)]);
                assert(t[i] == TokenV::Text(txt));
                assert(t.skip(i + 1) =~= tail);
                lemma_sp_line_inverts(t, i + 1, l2, rest);
                assert(l =~= LineV { spans: seq![x] + l2.spans, child: l2.child });
            },
            SpanV::Markup(k, inner) => {
                let inner_tail = ev_spans(inner) + seq![TokenV::MarkupEnd(tag_of(k))] + tail;
                assert(ev_span(x) == seq![TokenV::MarkupStart(k)] + ev_spans(inner) + seq![
                    TokenV::MarkupEnd(tag_of(k)),
                ]);
                assert(t.skip(i) =~= seq![TokenV::MarkupStart(k)] + inner_tail);
                lemma_skip_split(t, i, seq![TokenV::MarkupStart(k)], inner_tail);
                assert(t[i] == TokenV::MarkupStart(k));
                let ctx2 = SpanCtx::Markup(tag_of(k));
                assert(t.skip(i + 1) =~= ev_spans(inner) + seq![ctx_close(ctx2)] + tail);
                lemma_sp_spans_inverts(t, i + 1, inner, ctx2, tail);
                let j = i + 1 + ev_spans(inner).len() + 1;
                assert(t.skip(j) =~= tail) by {
                    lemma_skip_split(t, i + 1, ev_spans(inner) + seq![ctx_close(ctx2)], tail);
                };
                lemma_sp_line_inverts(t, j, l2, rest);
                assert(l =~= LineV { spans: seq![x] + l2.spans, child: l2.child });
            },
        }
    }
}

/// The list-body builder inverts the canonical events of a list's items,
/// up to the list's end marker.
pub proof fn lemma_sp_lines_inverts(t: Seq<TokenV>, i: int, items: Seq<LineV>, rest: Seq<TokenV>)
    requires
        0 <= i <= t.len(),
        t.skip(i) == ev_lines(items) + seq![TokenV::ListEnd] + rest,
    ensures
        sp_lines(t, i) == Result::<(Seq<LineV>, int), ParseError>::Ok(
            (items, i + ev_lines(items).len() + 1),
        ),
    decreases ev_lines(items).len(), 3int,
{
    if items.len() == 0 {
        assert(ev_lines(items) =~= Seq::<TokenV>::empty());
        assert(t.skip(i) =~= seq![TokenV::ListEnd] + rest);
        lemma_skip_split(t, i, seq![TokenV::ListEnd], rest);
        assert(t[i] == TokenV::ListEnd);
        assert(items =~= Seq::<LineV>::empty());
    } else {
        let l = items[0];
        let items2 = items.drop_first();
        assert(ev_lines(items) == ev_line(l) + ev_lines(items2));
        let tail = ev_lines(items2) + seq![TokenV::ListEnd] + rest;
        assert(t.skip(i) =~= ev_line(l) + tail);
        lemma_skip_split(t, i, ev_line(l), tail);
        assert(seq![l] + items2 =~= items);
        let body = ev_spans(l.spans) + ev_child(l.child) + seq![TokenV::ItemEnd];
        assert(ev_line(l) =~= seq![TokenV::ItemStart] + body);
        assert(t.skip(i) =~= seq![TokenV::ItemStart] + (body + tail));
        lemma_skip_split(t, i, seq![TokenV::ItemStart], body + tail);
        assert(t[i] == TokenV::ItemStart);
        assert(t.skip(i + 1) =~= ev_spans(l.spans) + ev_child(l.child) + seq![TokenV::ItemEnd]
            + tail);
        lemma_sp_line_inverts(t, i + 1, l, tail);
        let j = i + 1 + ev_spans(l.spans).len() + ev_child(l.child).len() + 1;
        assert(t.skip(j) =~= tail) by {
            lemma_skip_split(t, i + 1, body, tail);
        };
        lemma_sp_lines_inverts(t, j, items2, rest);
    }
}

/// The block builder inverts the canonical events of one block.
pub proof fn lemma_sp_block_inverts(t: Seq<TokenV>, i: int, b: BlockV, rest: Seq<TokenV>)
    requires
        0 <= i <= t.len(),
        t.skip(i) == ev_block(b) + rest,
    ensures
        sp_block(t, i) == Result::<(BlockV, int), ParseError>::Ok((b, i + ev_block(b).len())),
    decreases ev_block(b).len(), 1int,
{
    lemma_skip_split(t, i, ev_block(b), rest);
    match b {
        BlockV::Header(lv, ss) => {
            assert(ev_block(b) == seq![TokenV::HeaderStart(lv)] + ev_spans(ss) + seq![
                TokenV::HeaderEnd,
            ]);
            assert(t.skip(i) =~= seq![TokenV::HeaderStart(lv)] + (ev_spans(ss) + seq![
                TokenV::HeaderEnd,
            ] + rest));
            lemma_skip_split(
                t,
                i,
                seq![TokenV::HeaderStart(lv)],
                ev_spans(ss) + seq![TokenV::HeaderEnd] + rest,
            );
            assert(t[i] == TokenV::HeaderStart(lv));
            assert(t.skip(i + 1) =~= ev_spans(ss) + seq![ctx_close(SpanCtx::Header)] + rest);
            lemma_sp_spans_inverts(t, i + 1, ss, SpanCtx::Header, rest);
        },
        BlockV::List(kind, items) => {
            assert(ev_block(b) == seq![TokenV::ListStart(kind)] + ev_lines(items) + seq![
                TokenV::ListEnd,
            ]);
            assert(t.skip(i) =~= seq![TokenV::ListStart(kind)] + (ev_lines(items) + seq![
                TokenV::ListEnd,
            ] + rest));
            lemma_skip_split(
                t,
                i,
                seq![TokenV::ListStart(kind)],
                ev_lines(items) + seq![TokenV::ListEnd] + rest,
            );
            assert(t[i] == TokenV::ListStart(kind));
            assert(t.skip(i + 1) =~= ev_lines(items) + seq![TokenV::ListEnd] + rest);
            lemma_sp_lines_inverts(t, i + 1, items, rest);
        },
        BlockV::Code(txt) => {
            assert(ev_block(b) =~= seq![TokenV::CodeStart] + seq![
                TokenV::Text(txt),
                TokenV::CodeEnd,
            ]);
            assert(t.skip(i) =~= seq![TokenV::CodeStart] + (seq![
                TokenV::Text(txt),
                TokenV::CodeEnd,
            ] + rest));
            lemma_skip_split(
                t,
                i,
                seq![TokenV::CodeStart],
                seq![TokenV::Text(txt), TokenV::CodeEnd] + rest,
            );
            assert(t[i] == TokenV::CodeStart);
            assert(t.skip(i + 1) =~= seq![TokenV::Text(txt), TokenV::CodeEnd] + rest);
            lemma_sp_code_inverts(t, i + 1, txt, rest);
        },
        BlockV::Quote(content) => {
            assert(ev_block(b) == seq![TokenV::QuoteStart] + ev_blocks(content) + seq![
                TokenV::QuoteEnd,
            ]);
            assert(t.skip(i) =~= seq![TokenV::QuoteStart] + (ev_blocks(content) + seq![
                TokenV::QuoteEnd,
            ] + rest));
            lemma_skip_split(
                t,
                i,
                seq![TokenV::QuoteStart],
                ev_blocks(content) + seq![TokenV::QuoteEnd] + rest,
            );
            assert(t[i] == TokenV::QuoteStart);
            assert(t.skip(i + 1) =~= ev_blocks(content) + seq![TokenV::QuoteEnd] + rest);
            lemma_sp_blocks_inverts_quote(t, i + 1, content, rest);
        },
    }
}

/// The block-sequence builder, inside a quotation, inverts the canonical
/// events of the quoted blocks up to the quotation's end marker.
pub proof fn lemma_sp_blocks_inverts_quote(
    t: Seq<TokenV>,
    i: int,
    bs: Seq<BlockV>,
    rest: Seq<TokenV>,
)
    requires
        0 <= i <= t.len(),
        t.skip(i) == ev_blocks(bs) + seq![TokenV::QuoteEnd] + rest,
    ensures
        sp_blocks(t, i, true) == Result::<(Seq<BlockV>, int), ParseError>::Ok(
            (bs, i + ev_blocks(bs).len() + 1),
        ),
    decreases ev_blocks(bs).len(), 4int,
{
    if bs.len() == 0 {
        assert(ev_blocks(bs) =~= Seq::<TokenV>::empty());
        assert(t.skip(i) =~= seq![TokenV::QuoteEnd] + rest);
        lemma_skip_split(t, i, seq![TokenV::QuoteEnd], rest);
        assert(t[i] == TokenV::QuoteEnd);
        assert(bs =~= Seq::<BlockV>::empty());
    } else {
        let b = bs[0];
        let bs2 = bs.drop_first();
        assert(ev_blocks(bs) == ev_block(b) + ev_blocks(bs2));
        let tail = ev_blocks(bs2) + seq![TokenV::QuoteEnd] + rest;
        assert(t.skip(i) =~= ev_block(b) + tail);
        lemma_skip_split(t, i, ev_block(b), tail);
        lemma_ev_block_head(b);
        assert(t[i] == ev_block(b)[0]);
        assert(t[i] != TokenV::QuoteEnd);
        assert(seq![b] + bs2 =~= bs);
        lemma_sp_block_inverts(t, i, b, tail);
        let j = i + ev_block(b).len();
        assert(t.skip(j) =~= tail);
        lemma_sp_blocks_inverts_quote(t, j, bs2, rest);
    }
}

/// The block-sequence builder, at the top level, inverts the canonical
/// events of a whole document and consumes the entire stream.
pub proof fn lemma_sp_blocks_inverts_top(t: Seq<TokenV>, i: int, bs: Seq<BlockV>)
    requires
        0 <= i <= t.len(),
        t.skip(i) == ev_blocks(bs),
    ensures
        sp_blocks(t, i, false) == Result::<(Seq<BlockV>, int), ParseError>::Ok(
            (bs, t.len() as int),
        ),
    decreases ev_blocks(bs).len(), 4int,
{
    if bs.len() == 0 {
        assert(ev_blocks(bs) =~= Seq::<TokenV>::empty());
        assert(t.skip(i).len() == t.len() - i);
        assert(i == t.len());
        assert(bs =~= Seq::<BlockV>::empty());
    } else {
        let b = bs[0];
        let bs2 = bs.drop_first();
        assert(ev_blocks(bs) == ev_block(b) + ev_blocks(bs2));
        let tail = ev_blocks(bs2);
        assert(t.skip(i) =~= ev_block(b) + tail);
        lemma_skip_split(t, i, ev_block(b), tail);
        lemma_ev_block_head(b);
        assert(i < t.len());
        assert(seq![b] + bs2 =~= bs);
        lemma_sp_block_inverts(t, i, b, tail);
        let j = i + ev_block(b).len();
        assert(t.skip(j) =~= tail);
        lemma_sp_blocks_inverts_top(t, j, bs2);
    }
}

} // verus!
