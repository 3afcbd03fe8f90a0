use vstd::prelude::*;
use vstd::string::StringExecFns;

use crate::note::span::{
    lemma_spans_v_len, span_v, spans_text, spans_v, tc_spans, Span, SpanV,
};
use crate::note::TextContent;

verus! {

/// Whether a list block is ordered (`Ol`) or unordered (`Ul`).
#[derive(Clone, Copy, Debug, PartialEq, Eq, Structural)]
pub enum BlockKind {
    Ol,
    Ul,
}

/// One item of a list block: its inline content, plus an optional single
/// nested block attached under the item.  A line with empty spans and a
/// present child is a label-less container line.
#[derive(Debug)]
pub struct Line {
    pub spans: Vec<Span>,
    pub child: Option<Box<Block>>,
}

/// A top-level structural unit of a note's body.
#[derive(Debug)]
pub enum Block {
    /// A heading of the given level with its inline content.
    Header { level: u8, spans: Vec<Span> },
    /// An ordered or unordered list of items.
    List { kind: BlockKind, items: Vec<Line> },
    /// A code block; its text is kept verbatim and never parsed.
    Code { text: String },
    /// A quotation that owns a nested sequence of blocks.
    Quote { content: Vec<Block> },
}

/// The mathematical value of a `Line`.
#[verifier::ext_equal]
pub struct LineV {
    pub spans: Seq<SpanV>,
    pub child: Option<Box<BlockV>>,
}

/// The mathematical value of a `Block`.
#[verifier::ext_equal]
pub enum BlockV {
    Header(u8, Seq<SpanV>),
    List(BlockKind, Seq<LineV>),
    Code(Seq<char>),
    Quote(Seq<BlockV>),
}

/// The value of a line.
pub open spec fn line_v(l: Line) -> LineV
    decreases l,
{
    LineV {
        spans: spans_v(l.spans@),
        child: match l.child {
            Option::None => Option::None,
            Option::Some(b) => Option::Some(Box::new(block_v(*b))),
        },
    }
}

/// The value of a block.
pub open spec fn block_v(b: Block) -> BlockV
    decreases b,
{
    match b {
        Block::Header { level, spans } => BlockV::Header(level, spans_v(spans@)),
        Block::List { kind, items } => BlockV::List(kind, lines_v(items@)),
        Block::Code { text } => BlockV::Code(text@),
        Block::Quote { content } => BlockV::Quote(blocks_v(content@)),
    }
}

/// The values of a sequence of lines, element by element.
pub open spec fn lines_v(s: Seq<Line>) -> Seq<LineV>
    decreases s,
{
    if s.len() == 0 {
        Seq::empty()
    } else {
        seq![line_v(s[0])] + lines_v(s.drop_first())
    }
}

/// The values of a sequence of blocks, element by element.
pub open spec fn blocks_v(s: Seq<Block>) -> Seq<BlockV>
    decreases s,
{
    if s.len() == 0 {
        Seq::empty()
    } else {
        seq![block_v(s[0])] + blocks_v(s.drop_first())
    }
}

/// The length of the value sequence equals the length of the line sequence.
pub broadcast proof fn lemma_lines_v_len(s: Seq<Line>)
    ensures
        (#[trigger] lines_v(s)).len() == s.len(),
    decreases s,
{
    if s.len() > 0 {
        lemma_lines_v_len(s.drop_first());
    }
}

/// The value sequence of lines is the element-wise value.
pub broadcast proof fn lemma_lines_v_index(s: Seq<Line>, i: int)
    requires
        0 <= i < s.len(),
    ensures
        #[trigger] lines_v(s)[i] == line_v(s[i]),
    decreases s,
{
    if i == 0 {
        assert(lines_v(s) == seq![line_v(s[0])] + lines_v(s.drop_first()));
    } else {
        lemma_lines_v_len(s.drop_first());
        lemma_lines_v_index(s.drop_first(), i - 1);
        assert(lines_v(s) == seq![line_v(s[0])] + lines_v(s.drop_first()));
        assert(lines_v(s)[i] == lines_v(s.drop_first())[i - 1]);
        assert(s.drop_first()[i - 1] == s[i]);
    }
}

/// The length of the value sequence equals the length of the block sequence.
pub broadcast proof fn lemma_blocks_v_len(s: Seq<Block>)
    ensures
        (#[trigger] blocks_v(s)).len() == s.len(),
    decreases s,
{
    if s.len() > 0 {
        lemma_blocks_v_len(s.drop_first());
    }
}

/// The value sequence of blocks is the element-wise value.
pub broadcast proof fn lemma_blocks_v_index(s: Seq<Block>, i: int)
    requires
        0 <= i < s.len(),
    ensures
        #[trigger] blocks_v(s)[i] == block_v(s[i]),
    decreases s,
{
    if i == 0 {
        assert(blocks_v(s) == seq![block_v(s[0])] + blocks_v(s.drop_first()));
    } else {
        lemma_blocks_v_len(s.drop_first());
        lemma_blocks_v_index(s.drop_first(), i - 1);
        assert(blocks_v(s) == seq![block_v(s[0])] + blocks_v(s.drop_first()));
        assert(blocks_v(s)[i] == blocks_v(s.drop_first())[i - 1]);
        assert(s.drop_first()[i - 1] == s[i]);
    }
}

/// Putting one line in front of a sequence puts its value in front of the
/// value sequence.
pub proof fn lemma_lines_v_cons(x: Line, s: Seq<Line>)
    ensures
        lines_v(seq![x] + s) == seq![line_v(x)] + lines_v(s),
{
    assert((seq![x] + s)[0] == x);
    assert((seq![x] + s).drop_first() =~= s);
}

/// Putting one block in front of a sequence puts its value in front of the
/// value sequence.
pub proof fn lemma_blocks_v_cons(x: Block, s: Seq<Block>)
    ensures
        blocks_v(seq![x] + s) == seq![block_v(x)] + blocks_v(s),
{
    assert((seq![x] + s)[0] == x);
    assert((seq![x] + s).drop_first() =~= s);
}

/// The markup-free text of a line: its spans' text and its child's text,
/// joined with a single newline; if either side is missing, the other
/// stands alone.
pub open spec fn tc_line(l: LineV) -> Seq<char>
    decreases l,
{
    match l.child {
        Option::None => tc_spans(l.spans),
        Option::Some(b) => if l.spans.len() == 0 {
            tc_block(*b)
        } else {
            tc_spans(l.spans) + "\n"@ + tc_block(*b)
        },
    }
}

/// The markup-free text of a block: heading and list content loses all
/// markers and markup, code text is kept verbatim.
pub open spec fn tc_block(b: BlockV) -> Seq<char>
    decreases b,
{
    match b {
        BlockV::Header(level, spans) => tc_spans(spans),
        BlockV::List(kind, items) => tc_lines(items),
        BlockV::Code(t) => t,
        BlockV::Quote(content) => tc_blocks(content),
    }
}

/// The markup-free text of a sequence of lines: the elements' texts joined
/// with a single newline between them.
pub open spec fn tc_lines(s: Seq<LineV>) -> Seq<char>
    decreases s,
{
    if s.len() == 0 {
        Seq::empty()
    } else if s.len() == 1 {
        tc_line(s[0])
    } else {
        tc_line(s[0]) + "\n"@ + tc_lines(s.drop_first())
    }
}

/// The markup-free text of a sequence of blocks: the elements' texts joined
/// with a single newline between them.
pub open spec fn tc_blocks(s: Seq<BlockV>) -> Seq<char>
    decreases s,
{
    if s.len() == 0 {
        Seq::empty()
    } else if s.len() == 1 {
        tc_block(s[0])
    } else {
        tc_block(s[0]) + "\n"@ + tc_blocks(s.drop_first())
    }
}

/// The markup-free text of one line, computed.
pub fn line_text(l: &Line) -> (r: String)
    ensures
        r@ == tc_line(line_v(*l)),
    decreases *l, 0int,
{
    match &l.child {
        Option::None => spans_text(&l.spans),
        Option::Some(b) => {
            if l.spans.len() == 0 {
                proof {
                    lemma_spans_v_len(l.spans@);
                }
                block_text(&**b)
            } else {
                proof {
                    lemma_spans_v_len(l.spans@);
                }
                let mut out = spans_text(&l.spans);
                out.append("\n");
                let ct = block_text(&**b);
                out.append(ct.as_str());
                out
            }
        },
    }
}

/// The markup-free text of one block, computed.
pub fn block_text(b: &Block) -> (r: String)
    ensures
        r@ == tc_block(block_v(*b)),
    decreases *b, 0int,
{
    match b {
        Block::Header { level, spans } => spans_text(spans),
        Block::List { kind, items } => {
            let r = lines_text_from(items, 0);
            proof {
                assert(items@.skip(0) =~= items@);
            }
            r
        },
        Block::Code { text } => text.clone(),
        Block::Quote { content } => {
            let r = blocks_text_from(content, 0);
            proof {
                assert(content@.skip(0) =~= content@);
            }
            r
        },
    }
}

/// The markup-free text of the lines of `v` from position `i` on, computed.
pub fn lines_text_from(v: &Vec<Line>, i: usize) -> (r: String)
    requires
        i <= v@.len(),
    ensures
        r@ == tc_lines(lines_v(v@.skip(i as int))),
    decreases *v, v@.len() - i,
{
    if i == v.len() {
        assert(v@.skip(i as int) =~= Seq::<Line>::empty());
        String::new()
    } else {
        let mut out = line_text(&v[i]);
        proof {
            let t = v@.skip(i as int);
            lemma_lines_v_len(t);
            lemma_lines_v_index(t, 0);
            assert(t[0] == v@[i as int]);
        }
        if i + 1 < v.len() {
            let rest = lines_text_from(v, i + 1);
            out.append("\n");
            out.append(rest.as_str());
            proof {
                let t = v@.skip(i as int);
                assert(t.drop_first() =~= v@.skip(i as int + 1));
                assert(lines_v(t) == seq![line_v(t[0])] + lines_v(t.drop_first()));
                assert(lines_v(t).drop_first() =~= lines_v(t.drop_first()));
            }
        } else {
            proof {
                let t = v@.skip(i as int);
                assert(t.len() == 1);
            }
        }
        out
    }
}

/// The markup-free text of the blocks of `v` from position `i` on, computed.
pub fn blocks_text_from(v: &Vec<Block>, i: usize) -> (r: String)
    requires
        i <= v@.len(),
    ensures
        r@ == tc_blocks(blocks_v(v@.skip(i as int))),
    decreases *v, v@.len() - i,
{
    if i == v.len() {
        assert(v@.skip(i as int) =~= Seq::<Block>::empty());
        String::new()
    } else {
        let mut out = block_text(&v[i]);
        proof {
            let t = v@.skip(i as int);
            lemma_blocks_v_len(t);
            lemma_blocks_v_index(t, 0);
            assert(t[0] == v@[i as int]);
        }
        if i + 1 < v.len() {
            let rest = blocks_text_from(v, i + 1);
            out.append("\n");
            out.append(rest.as_str());
            proof {
                let t = v@.skip(i as int);
                assert(t.drop_first() =~= v@.skip(i as int + 1));
                assert(blocks_v(t) == seq![block_v(t[0])] + blocks_v(t.drop_first()));
                assert(blocks_v(t).drop_first() =~= blocks_v(t.drop_first()));
            }
        } else {
            proof {
                let t = v@.skip(i as int);
                assert(t.len() == 1);
            }
        }
        out
    }
}

/// The markup-free text of a whole sequence of lines, computed.
pub fn lines_text(v: &Vec<Line>) -> (r: String)
    ensures
        r@ == tc_lines(lines_v(v@)),
{
    let r = lines_text_from(v, 0);
    proof {
        assert(v@.skip(0) =~= v@);
    }
    r
}

/// The markup-free text of a whole sequence of blocks, computed.
pub fn blocks_text(v: &Vec<Block>) -> (r: String)
    ensures
        r@ == tc_blocks(blocks_v(v@)),
{
    let r = blocks_text_from(v, 0);
    proof {
        assert(v@.skip(0) =~= v@);
    }
    r
}

impl TextContent for Line {
    open spec fn text_spec(&self) -> Seq<char> {
        tc_line(line_v(*self))
    }

    fn text_content(&self) -> (r: String) {
        line_text(self)
    }
}

impl TextContent for Block {
    open spec fn text_spec(&self) -> Seq<char> {
        tc_block(block_v(*self))
    }

    fn text_content(&self) -> (r: String) {
        block_text(self)
    }
}

} // verus!
