use vstd::prelude::*;
use vstd::string::StringExecFns;

use crate::note::block::{
    lemma_blocks_v_len, lemma_blocks_v_index, lemma_lines_v_len, lemma_lines_v_index, block_v,
    blocks_v, line_v, lines_v, Block, BlockKind, BlockV, Line, LineV,
};
use crate::note::span::{
    kind_v, lemma_spans_v_index, lemma_spans_v_len, span_text, span_v, spans_text, spans_v,
    tc_span, tc_spans, KindV, MarkupKind, MarkupSpan, Span, SpanV, TextSpan,
};

verus! {

/// Rendered text with every markup delimiter stripped; only list markers
/// and the structural joining conventions remain.
pub struct PlainText(pub String);

/// Rendered text in the markup-preserving format: every annotation is
/// written back with its fixed delimiters.
pub struct Markdown(pub String);

impl View for PlainText {
    type V = Seq<char>;

    open spec fn view(&self) -> Seq<char> {
        self.0@
    }
}

impl View for Markdown {
    type V = Seq<char>;

    open spec fn view(&self) -> Seq<char> {
        self.0@
    }
}

impl PlainText {
    /// The rendered text as a string slice.
    pub fn as_str(&self) -> (r: &str)
        ensures
            r@ == self@,
    {
        self.0.as_str()
    }
}

impl Markdown {
    /// The rendered text as a string slice.
    pub fn as_str(&self) -> (r: &str)
        ensures
            r@ == self@,
    {
        self.0.as_str()
    }
}

/// The capability of serializing a node to the text format `T`.
pub trait Render<T: View<V = Seq<char>>> {
    /// The text that `render` produces, as a mathematical value.
    spec fn render_spec(&self) -> Seq<char>;

    /// Serializes the node to the target format.
    fn render(&self) -> (r: T)
        ensures
            r@ == self.render_spec(),
    ;
}

/// The character that writes the decimal digit `d`.
pub open spec fn digit_char(d: int) -> char {
    if d == 0 {
        '0'
    } else if d == 1 {
        '1'
    } else if d == 2 {
        '2'
    } else if d == 3 {
        '3'
    } else if d == 4 {
        '4'
    } else if d == 5 {
        '5'
    } else if d == 6 {
        '6'
    } else if d == 7 {
        '7'
    } else if d == 8 {
        '8'
    } else {
        '9'
    }
}

/// The decimal writing of `n`, most significant digit first, no sign and
/// no leading zero.
pub open spec fn dec_rep(n: nat) -> Seq<char>
    decreases n,
{
    if n < 10 {
        seq![digit_char(n as int)]
    } else {
        dec_rep(n / 10) + seq![digit_char((n % 10) as int)]
    }
}

/// The string of the decimal digit `d`, computed.
fn digit_string(d: usize) -> (r: String)
    requires
        d < 10,
    ensures
        r@ == seq![digit_char(d as int)],
{
    proof {
        reveal_strlit("0");
        reveal_strlit("1");
        reveal_strlit("2");
        reveal_strlit("3");
        reveal_strlit("4");
        reveal_strlit("5");
        reveal_strlit("6");
        reveal_strlit("7");
        reveal_strlit("8");
        reveal_strlit("9");
    }
    let r = match d {
        0 => String::from_str("0"),
        1 => String::from_str("1"),
        2 => String::from_str("2"),
        3 => String::from_str("3"),
        4 => String::from_str("4"),
        5 => String::from_str("5"),
        6 => String::from_str("6"),
        7 => String::from_str("7"),
        8 => String::from_str("8"),
        _ => String::from_str("9"),
    };
    proof {
        assert(r@ =~= seq![digit_char(d as int)]);
    }
    r
}

/// The decimal writing of `n`, computed.
pub fn dec_string(n: usize) -> (r: String)
    ensures
        r@ == dec_rep(n as nat),
    decreases n,
{
    if n < 10 {
        digit_string(n)
    } else {
        let mut s = dec_string(n / 10);
        let d = digit_string(n % 10);
        s.append(d.as_str());
        s
    }
}

/// The delimiter written before the inner text of a markup kind, in the
/// markup-preserving format.
pub open spec fn md_kind_open(k: KindV) -> Seq<char> {
    match k {
        KindV::Strong => "**"@,
        KindV::Emphasis => "_"@,
        KindV::Underline => "__"@,
        KindV::Strikeout => "~~"@,
        KindV::Code => "`"@,
        KindV::Tag => "#"@,
        KindV::Link(t) => "["@,
    }
}

/// The delimiter written after the inner text of a markup kind, in the
/// markup-preserving format.  A tag has no closing delimiter; a link
/// closes with its target in the bracket-parenthesis convention.
pub open spec fn md_kind_close(k: KindV) -> Seq<char> {
    match k {
        KindV::Strong => "**"@,
        KindV::Emphasis => "_"@,
        KindV::Underline => "__"@,
        KindV::Strikeout => "~~"@,
        KindV::Code => "`"@,
        KindV::Tag => Seq::empty(),
        KindV::Link(t) => "]("@ + t + ")"@,
    }
}

/// The markup-preserving text of one span.
pub open spec fn md_span(s: SpanV) -> Seq<char>
    decreases s,
{
    match s {
        SpanV::Text(t) => t,
        SpanV::Markup(k, inner) => md_kind_open(k) + md_spans(inner) + md_kind_close(k),
    }
}

/// The markup-preserving text of a run of spans, concatenated in order
/// with no separator.
pub open spec fn md_spans(s: Seq<SpanV>) -> Seq<char>
    decreases s,
{
    if s.len() == 0 {
        Seq::empty()
    } else {
        md_span(s[0]) + md_spans(s.drop_first())
    }
}

/// The markup-preserving text of a line: its own inline content, then,
/// when a child block is present, a newline and the child's full text.
pub open spec fn md_line(l: LineV) -> Seq<char>
    decreases l,
{
    match l.child {
        Option::None => md_spans(l.spans),
        Option::Some(b) => md_spans(l.spans) + "\n"@ + md_block(*b),
    }
}

/// The marker that prefixes the item at 1-based position `n` of a list,
/// in the markup-preserving format.
pub open spec fn md_marker(kind: BlockKind, n: nat) -> Seq<char> {
    match kind {
        BlockKind::Ul => "- "@,
        BlockKind::Ol => dec_rep(n) + ". "@,
    }
}

/// The markup-preserving text of the items of a list whose first element
/// has 1-based position `n`: each item marker-prefixed, items joined with
/// a single newline.
pub open spec fn md_lines(kind: BlockKind, s: Seq<LineV>, n: nat) -> Seq<char>
    decreases s,
{
    if s.len() == 0 {
        Seq::empty()
    } else if s.len() == 1 {
        md_marker(kind, n) + md_line(s[0])
    } else {
        md_marker(kind, n) + md_line(s[0]) + "\n"@ + md_lines(kind, s.drop_first(), n + 1)
    }
}

/// `n` header sigils in a row.
pub open spec fn hashes(n: nat) -> Seq<char>
    decreases n,
{
    if n == 0 {
        Seq::empty()
    } else {
        "#"@ + hashes((n - 1) as nat)
    }
}

/// The markup-preserving text of one block.
pub open spec fn md_block(b: BlockV) -> Seq<char>
    decreases b,
{
    match b {
        BlockV::Header(level, spans) => hashes(level as nat) + " "@ + md_spans(spans),
        BlockV::List(kind, items) => md_lines(kind, items, 1),
        BlockV::Code(t) => "```\n"@ + t + "```"@,
        BlockV::Quote(content) => "> "@ + md_blocks(content),
    }
}

/// The markup-preserving text of a sequence of blocks, joined with one
/// blank line between them.
pub open spec fn md_blocks(s: Seq<BlockV>) -> Seq<char>
    decreases s,
{
    if s.len() == 0 {
        Seq::empty()
    } else if s.len() == 1 {
        md_block(s[0])
    } else {
        md_block(s[0]) + "\n\n"@ + md_blocks(s.drop_first())
    }
}

/// The marker that prefixes the item at 1-based position `n` of a list,
/// in the plain-text format.
pub open spec fn plain_marker(kind: BlockKind, n: nat) -> Seq<char> {
    match kind {
        BlockKind::Ul => "* "@,
        BlockKind::Ol => dec_rep(n) + ". "@,
    }
}

/// The plain text of a line: its spans' text without any delimiter, then,
/// when a child block is present, a newline and the child's plain text.
pub open spec fn plain_line(l: LineV) -> Seq<char>
    decreases l,
{
    match l.child {
        Option::None => tc_spans(l.spans),
        Option::Some(b) => tc_spans(l.spans) + "\n"@ + plain_block(*b),
    }
}

/// The plain text of the items of a list whose first element has 1-based
/// position `n`: markers are kept, items joined with a single newline.
pub open spec fn plain_lines(kind: BlockKind, s: Seq<LineV>, n: nat) -> Seq<char>
    decreases s,
{
    if s.len() == 0 {
        Seq::empty()
    } else if s.len() == 1 {
        plain_marker(kind, n) + plain_line(s[0])
    } else {
        plain_marker(kind, n) + plain_line(s[0]) + "\n"@ + plain_lines(kind, s.drop_first(), n + 1)
    }
}

/// The plain text of one block: no delimiter of any annotation kind and
/// no header, code or quote sigil is written; list markers remain.
pub open spec fn plain_block(b: BlockV) -> Seq<char>
    decreases b,
{
    match b {
        BlockV::Header(level, spans) => tc_spans(spans),
        BlockV::List(kind, items) => plain_lines(kind, items, 1),
        BlockV::Code(t) => t,
        BlockV::Quote(content) => plain_blocks(content),
    }
}

/// The plain text of a sequence of blocks, joined with one blank line
/// between them.
pub open spec fn plain_blocks(s: Seq<BlockV>) -> Seq<char>
    decreases s,
{
    if s.len() == 0 {
        Seq::empty()
    } else if s.len() == 1 {
        plain_block(s[0])
    } else {
        plain_block(s[0]) + "\n\n"@ + plain_blocks(s.drop_first())
    }
}

/// The opening delimiter of a markup kind, computed.
fn md_kind_open_str(k: &MarkupKind) -> (r: String)
    ensures
        r@ == md_kind_open(kind_v(*k)),
{
    match k {
        MarkupKind::Strong => String::from_str("**"),
        MarkupKind::Emphasis => String::from_str("_"),
        MarkupKind::Underline => String::from_str("__"),
        MarkupKind::Strikeout => String::from_str("~~"),
        MarkupKind::Code => String::from_str("`"),
        MarkupKind::Tag => String::from_str("#"),
        MarkupKind::Link(_) => String::from_str("["),
    }
}

/// The closing delimiter of a markup kind, computed.
fn md_kind_close_str(k: &MarkupKind) -> (r: String)
    ensures
        r@ == md_kind_close(kind_v(*k)),
{
    match k {
        MarkupKind::Strong => String::from_str("**"),
        MarkupKind::Emphasis => String::from_str("_"),
        MarkupKind::Underline => String::from_str("__"),
        MarkupKind::Strikeout => String::from_str("~~"),
        MarkupKind::Code => String::from_str("`"),
        MarkupKind::Tag => String::new(),
        MarkupKind::Link(t) => {
            let mut out = String::from_str("](");
            out.append(t.as_str());
            out.append(")");
            out
        },
    }
}

/// The markup-preserving text of a markup span, computed.
pub fn md_markup_text(m: &MarkupSpan) -> (r: String)
    ensures
        r@ == md_kind_open(kind_v(m.kind)) + md_spans(spans_v(m.inner@)) + md_kind_close(
            kind_v(m.kind),
        ),
    decreases *m, 1int, 0int,
{
    let mut out = md_kind_open_str(&m.kind);
    let inner = md_spans_from(&m.inner, 0);
    out.append(inner.as_str());
    let close = md_kind_close_str(&m.kind);
    out.append(close.as_str());
    proof {
        assert(m.inner@.skip(0) =~= m.inner@);
    }
    out
}

/// The markup-preserving text of one span, computed.
pub fn md_span_text(s: &Span) -> (r: String)
    ensures
        r@ == md_span(span_v(*s)),
    decreases *s, 2int, 0int,
{
    match s {
        Span::Text(t) => t.text.clone(),
        Span::Markup(m) => md_markup_text(m),
    }
}

/// The markup-preserving text of the spans of `v` from position `i` on,
/// computed.
pub fn md_spans_from(v: &Vec<Span>, i: usize) -> (r: String)
    requires
        i <= v@.len(),
    ensures
        r@ == md_spans(spans_v(v@.skip(i as int))),
    decreases *v, 0int, v@.len() - i,
{
    if i == v.len() {
        assert(v@.skip(i as int) =~= Seq::<Span>::empty());
        String::new()
    } else {
        let mut out = md_span_text(&v[i]);
        let rest = md_spans_from(v, i + 1);
        out.append(rest.as_str());
        proof {
            let t = v@.skip(i as int);
            lemma_spans_v_len(t);
            lemma_spans_v_index(t, 0);
            assert(t[0] == v@[i as int]);
            assert(t.drop_first() =~= v@.skip(i as int + 1));
            assert(spans_v(t) == seq![span_v(t[0])] + spans_v(t.drop_first()));
            assert(spans_v(t).drop_first() =~= spans_v(t.drop_first()));
        }
        out
    }
}

/// The markup-preserving text of a whole run of spans, computed.
pub fn md_spans_text(v: &Vec<Span>) -> (r: String)
    ensures
        r@ == md_spans(spans_v(v@)),
{
    let r = md_spans_from(v, 0);
    proof {
        assert(v@.skip(0) =~= v@);
    }
    r
}

/// The markup-preserving text of one line, computed.
pub fn md_line_text(l: &Line) -> (r: String)
    ensures
        r@ == md_line(line_v(*l)),
    decreases *l, 3int, 0int,
{
    match &l.child {
        Option::None => {
            let r = md_spans_from(&l.spans, 0);
            proof {
                assert(l.spans@.skip(0) =~= l.spans@);
            }
            r
        },
        Option::Some(b) => {
            let mut out = md_spans_from(&l.spans, 0);
            out.append("\n");
            let ct = md_block_text(&**b);
            out.append(ct.as_str());
            proof {
                assert(l.spans@.skip(0) =~= l.spans@);
            }
            out
        },
    }
}

/// The marker of the item at 1-based position `n`, in the markup-preserving
/// format, computed.
fn md_marker_string(kind: BlockKind, n: usize) -> (r: String)
    ensures
        r@ == md_marker(kind, n as nat),
{
    match kind {
        BlockKind::Ul => String::from_str("- "),
        BlockKind::Ol => {
            let mut out = dec_string(n);
            out.append(". ");
            out
        },
    }
}

/// The markup-preserving text of the items of `v` from position `i` on,
/// computed.
pub fn md_lines_from(kind: BlockKind, v: &Vec<Line>, i: usize) -> (r: String)
    requires
        i <= v@.len(),
    ensures
        r@ == md_lines(kind, lines_v(v@.skip(i as int)), (i + 1) as nat),
    decreases *v, 0int, v@.len() - i,
{
    if i == v.len() {
        assert(v@.skip(i as int) =~= Seq::<Line>::empty());
        String::new()
    } else {
        let mut out = md_marker_string(kind, i + 1);
        let lt = md_line_text(&v[i]);
        out.append(lt.as_str());
        proof {
            let t = v@.skip(i as int);
            lemma_lines_v_len(t);
            lemma_lines_v_index(t, 0);
            assert(t[0] == v@[i as int]);
        }
        if i + 1 < v.len() {
            let rest = md_lines_from(kind, v, i + 1);
            out.append("\n");
            out.append(rest.as_str());
            proof {
                let t = v@.skip(i as int);
                assert(t.drop_first() =~= v@.skip(i as int + 1));
                assert(lines_v(t) == seq![line_v(t[0])] + lines_v(t.drop_first()));
                assert(lines_v(t).drop_first() =~= lines_v(t.drop_first()));
            }
        } else {
            proof {
                let t = v@.skip(i as int);
                assert(t.len() == 1);
            }
        }
        out
    }
}

/// `n` header sigils in a row, computed.
fn hashes_string(n: u8) -> (r: String)
    ensures
        r@ == hashes(n as nat),
    decreases n,
{
    if n == 0 {
        String::new()
    } else {
        let mut out = String::from_str("#");
        let rest = hashes_string(n - 1);
        out.append(rest.as_str());
        out
    }
}

/// The markup-preserving text of one block, computed.
pub fn md_block_text(b: &Block) -> (r: String)
    ensures
        r@ == md_block(block_v(*b)),
    decreases *b, 4int, 0int,
{
    match b {
        Block::Header { level, spans } => {
            let mut out = hashes_string(*level);
            out.append(" ");
            let st = md_spans_from(spans, 0);
            out.append(st.as_str());
            proof {
                assert(spans@.skip(0) =~= spans@);
            }
            out
        },
        Block::List { kind, items } => {
            let r = md_lines_from(*kind, items, 0);
            proof {
                assert(items@.skip(0) =~= items@);
            }
            r
        },
        Block::Code { text } => {
            let mut out = String::from_str("```\n");
            out.append(text.as_str());
            out.append("```");
            out
        },
        Block::Quote { content } => {
            let mut out = String::from_str("> ");
            let ct = md_blocks_from(content, 0);
            out.append(ct.as_str());
            proof {
                assert(content@.skip(0) =~= content@);
            }
            out
        },
    }
}

/// The markup-preserving text of the blocks of `v` from position `i` on,
/// computed.
pub fn md_blocks_from(v: &Vec<Block>, i: usize) -> (r: String)
    requires
        i <= v@.len(),
    ensures
        r@ == md_blocks(blocks_v(v@.skip(i as int))),
    decreases *v, 0int, v@.len() - i,
{
    if i == v.len() {
        assert(v@.skip(i as int) =~= Seq::<Block>::empty());
        String::new()
    } else {
        let mut out = md_block_text(&v[i]);
        proof {
            let t = v@.skip(i as int);
            lemma_blocks_v_len(t);
            lemma_blocks_v_index(t, 0);
            assert(t[0] == v@[i as int]);
        }
        if i + 1 < v.len() {
            let rest = md_blocks_from(v, i + 1);
            out.append("\n\n");
            out.append(rest.as_str());
            proof {
                let t = v@.skip(i as int);
                assert(t.drop_first() =~= v@.skip(i as int + 1));
                assert(blocks_v(t) == seq![block_v(t[0])] + blocks_v(t.drop_first()));
                assert(blocks_v(t).drop_first() =~= blocks_v(t.drop_first()));
            }
        } else {
            proof {
                let t = v@.skip(i as int);
                assert(t.len() == 1);
            }
        }
        out
    }
}

/// The markup-preserving text of a whole sequence of blocks, computed.
pub fn md_blocks_text(v: &Vec<Block>) -> (r: String)
    ensures
        r@ == md_blocks(blocks_v(v@)),
{
    let r = md_blocks_from(v, 0);
    proof {
        assert(v@.skip(0) =~= v@);
    }
    r
}

/// The marker of the item at 1-based position `n`, in the plain-text
/// format, computed.
fn plain_marker_string(kind: BlockKind, n: usize) -> (r: String)
    ensures
        r@ == plain_marker(kind, n as nat),
{
    match kind {
        BlockKind::Ul => String::from_str("* "),
        BlockKind::Ol => {
            let mut out = dec_string(n);
            out.append(". ");
            out
        },
    }
}

/// The plain text of one line, computed.
pub fn plain_line_text(l: &Line) -> (r: String)
    ensures
        r@ == plain_line(line_v(*l)),
    decreases *l, 3int, 0int,
{
    match &l.child {
        Option::None => spans_text(&l.spans),
        Option::Some(b) => {
            let mut out = spans_text(&l.spans);
            out.append("\n");
            let ct = plain_block_text(&**b);
            out.append(ct.as_str());
            out
        },
    }
}

/// The plain text of the items of `v` from position `i` on, computed.
pub fn plain_lines_from(kind: BlockKind, v: &Vec<Line>, i: usize) -> (r: String)
    requires
        i <= v@.len(),
    ensures
        r@ == plain_lines(kind, lines_v(v@.skip(i as int)), (i + 1) as nat),
    decreases *v, 0int, v@.len() - i,
{
    if i == v.len() {
        assert(v@.skip(i as int) =~= Seq::<Line>::empty());
        String::new()
    } else {
        let mut out = plain_marker_string(kind, i + 1);
        let lt = plain_line_text(&v[i]);
        out.append(lt.as_str());
        proof {
            let t = v@.skip(i as int);
            lemma_lines_v_len(t);
            lemma_lines_v_index(t, 0);
            assert(t[0] == v@[i as int]);
        }
        if i + 1 < v.len() {
            let rest = plain_lines_from(kind, v, i + 1);
            out.append("\n");
            out.append(rest.as_str());
            proof {
                let t = v@.skip(i as int);
                assert(t.drop_first() =~= v@.skip(i as int + 1));
                assert(lines_v(t) == seq![line_v(t[0])] + lines_v(t.drop_first()));
                assert(lines_v(t).drop_first() =~= lines_v(t.drop_first()));
            }
        } else {
            proof {
                let t = v@.skip(i as int);
                assert(t.len() == 1);
            }
        }
        out
    }
}

/// The plain text of one block, computed.
pub fn plain_block_text(b: &Block) -> (r: String)
    ensures
        r@ == plain_block(block_v(*b)),
    decreases *b, 4int, 0int,
{
    match b {
        Block::Header { level, spans } => spans_text(spans),
        Block::List { kind, items } => {
            let r = plain_lines_from(*kind, items, 0);
            proof {
                assert(items@.skip(0) =~= items@);
            }
            r
        },
        Block::Code { text } => text.clone(),
        Block::Quote { content } => {
            let r = plain_blocks_from(content, 0);
            proof {
                assert(content@.skip(0) =~= content@);
            }
            r
        },
    }
}

/// The plain text of the blocks of `v` from position `i` on, computed.
pub fn plain_blocks_from(v: &Vec<Block>, i: usize) -> (r: String)
    requires
        i <= v@.len(),
    ensures
        r@ == plain_blocks(blocks_v(v@.skip(i as int))),
    decreases *v, 0int, v@.len() - i,
{
    if i == v.len() {
        assert(v@.skip(i as int) =~= Seq::<Block>::empty());
        String::new()
    } else {
        let mut out = plain_block_text(&v[i]);
        proof {
            let t = v@.skip(i as int);
            lemma_blocks_v_len(t);
            lemma_blocks_v_index(t, 0);
            assert(t[0] == v@[i as int]);
        }
        if i + 1 < v.len() {
            let rest = plain_blocks_from(v, i + 1);
            out.append("\n\n");
            out.append(rest.as_str());
            proof {
                let t = v@.skip(i as int);
                assert(t.drop_first() =~= v@.skip(i as int + 1));
                assert(blocks_v(t) == seq![block_v(t[0])] + blocks_v(t.drop_first()));
                assert(blocks_v(t).drop_first() =~= blocks_v(t.drop_first()));
            }
        } else {
            proof {
                let t = v@.skip(i as int);
                assert(t.len() == 1);
            }
        }
        out
    }
}

/// The plain text of a whole sequence of blocks, computed.
pub fn plain_blocks_text(v: &Vec<Block>) -> (r: String)
    ensures
        r@ == plain_blocks(blocks_v(v@)),
{
    let r = plain_blocks_from(v, 0);
    proof {
        assert(v@.skip(0) =~= v@);
    }
    r
}

impl Render<Markdown> for TextSpan {
    open spec fn render_spec(&self) -> Seq<char> {
        self.text@
    }

    fn render(&self) -> (r: Markdown) {
        Markdown(self.text.clone())
    }
}

impl Render<PlainText> for TextSpan {
    open spec fn render_spec(&self) -> Seq<char> {
        self.text@
    }

    fn render(&self) -> (r: PlainText) {
        PlainText(self.text.clone())
    }
}

impl Render<Markdown> for MarkupSpan {
    open spec fn render_spec(&self) -> Seq<char> {
        md_kind_open(kind_v(self.kind)) + md_spans(spans_v(self.inner@)) + md_kind_close(
            kind_v(self.kind),
        )
    }

    fn render(&self) -> (r: Markdown) {
        Markdown(md_markup_text(self))
    }
}

impl Render<PlainText> for MarkupSpan {
    open spec fn render_spec(&self) -> Seq<char> {
        tc_spans(spans_v(self.inner@))
    }

    fn render(&self) -> (r: PlainText) {
        PlainText(spans_text(&self.inner))
    }
}

impl Render<Markdown> for Span {
    open spec fn render_spec(&self) -> Seq<char> {
        md_span(span_v(*self))
    }

    fn render(&self) -> (r: Markdown) {
        Markdown(md_span_text(self))
    }
}

impl Render<PlainText> for Span {
    open spec fn render_spec(&self) -> Seq<char> {
        tc_span(span_v(*self))
    }

    fn render(&self) -> (r: PlainText) {
        PlainText(span_text(self))
    }
}

impl Render<Markdown> for Vec<Span> {
    open spec fn render_spec(&self) -> Seq<char> {
        md_spans(spans_v(self@))
    }

    fn render(&self) -> (r: Markdown) {
        Markdown(md_spans_text(self))
    }
}

impl Render<PlainText> for Vec<Span> {
    open spec fn render_spec(&self) -> Seq<char> {
        tc_spans(spans_v(self@))
    }

    fn render(&self) -> (r: PlainText) {
        PlainText(spans_text(self))
    }
}

impl Render<Markdown> for Line {
    open spec fn render_spec(&self) -> Seq<char> {
        md_line(line_v(*self))
    }

    fn render(&self) -> (r: Markdown) {
        Markdown(md_line_text(self))
    }
}

impl Render<PlainText> for Line {
    open spec fn render_spec(&self) -> Seq<char> {
        plain_line(line_v(*self))
    }

    fn render(&self) -> (r: PlainText) {
        PlainText(plain_line_text(self))
    }
}

impl Render<Markdown> for Block {
    open spec fn render_spec(&self) -> Seq<char> {
        md_block(block_v(*self))
    }

    fn render(&self) -> (r: Markdown) {
        Markdown(md_block_text(self))
    }
}

impl Render<PlainText> for Block {
    open spec fn render_spec(&self) -> Seq<char> {
        plain_block(block_v(*self))
    }

    fn render(&self) -> (r: PlainText) {
        PlainText(plain_block_text(self))
    }
}

impl Render<Markdown> for Vec<Block> {
    open spec fn render_spec(&self) -> Seq<char> {
        md_blocks(blocks_v(self@))
    }

    fn render(&self) -> (r: Markdown) {
        Markdown(md_blocks_text(self))
    }
}

impl Render<PlainText> for Vec<Block> {
    open spec fn render_spec(&self) -> Seq<char> {
        plain_blocks(blocks_v(self@))
    }

    fn render(&self) -> (r: PlainText) {
        PlainText(plain_blocks_text(self))
    }
}

} // verus!
