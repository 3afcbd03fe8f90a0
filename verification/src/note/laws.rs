use vstd::prelude::*;

use crate::note::block::{tc_block, tc_blocks, tc_line, tc_lines, BlockV, LineV};
use crate::note::metadata::lookup;
use crate::note::parse::{ev_blocks, lemma_sp_blocks_inverts_top, ParseError};
use crate::note::parse_body;
use crate::note::render::{
    dec_rep, digit_char, md_block, md_blocks, md_line, md_spans, plain_block, plain_blocks,
    plain_line, plain_lines, plain_marker,
};
use crate::note::span::{tc_span, tc_spans, KindV, SpanV};

verus! {

/// Markup never contributes text: an annotation of any kind has exactly
/// the text of its inner spans.
pub proof fn lemma_markup_is_transparent(k: KindV, inner: Seq<SpanV>)
    ensures
        tc_span(SpanV::Markup(k, inner)) == tc_spans(inner),
{
}

/// Text content preserves order: the text of two runs of spans laid side
/// by side is the two texts side by side.
pub proof fn lemma_text_content_order_preserving(a: Seq<SpanV>, b: Seq<SpanV>)
    ensures
        tc_spans(a + b) == tc_spans(a) + tc_spans(b),
    decreases a,
{
    if a.len() == 0 {
        assert(a + b =~= b);
        assert(tc_spans(a) =~= Seq::<char>::empty());
        assert(tc_spans(a) + tc_spans(b) =~= tc_spans(b));
    } else {
        assert((a + b)[0] == a[0]);
        assert((a + b).drop_first() =~= a.drop_first() + b);
        lemma_text_content_order_preserving(a.drop_first(), b);
        assert(tc_span(a[0]) + (tc_spans(a.drop_first()) + tc_spans(b)) =~= (tc_span(a[0])
            + tc_spans(a.drop_first())) + tc_spans(b));
    }
}

/// Empty-input laws: the text content of no spans, of no lines and of no
/// blocks is the empty string, and so is the rendering of no spans and of
/// no blocks in either format.
pub proof fn lemma_empty_input()
    ensures
        tc_spans(Seq::empty()) == Seq::<char>::empty(),
        tc_lines(Seq::empty()) == Seq::<char>::empty(),
        tc_blocks(Seq::empty()) == Seq::<char>::empty(),
        md_spans(Seq::empty()) == Seq::<char>::empty(),
        md_blocks(Seq::empty()) == Seq::<char>::empty(),
        plain_blocks(Seq::empty()) == Seq::<char>::empty(),
{
}

/// An empty preamble mapping holds no field at all.
pub proof fn lemma_empty_mapping_has_no_fields(key: Seq<char>)
    ensures
        lookup(Seq::empty(), key) == Option::<Seq<char>>::None,
{
}

/// Round trip: every document, written to its canonical token stream, is
/// parsed back to exactly itself by the block builder.
pub proof fn lemma_round_trip(bs: Seq<BlockV>)
    ensures
        parse_body(ev_blocks(bs)) == Result::<Seq<BlockV>, ParseError>::Ok(bs),
{
    let t = ev_blocks(bs);
    assert(t.skip(0) =~= t);
    lemma_sp_blocks_inverts_top(t, 0, bs);
}

/// A line with a child block renders as its own inline content, a single
/// newline, and the child's full rendering, in the markup-preserving
/// format.
pub proof fn lemma_line_with_child_renders_below(l: LineV)
    requires
        l.child is Some,
    ensures
        md_line(l) == md_spans(l.spans) + "\n"@ + md_block(*l.child->0),
{
}

/// The text of a line with a child joins the line's own text and the
/// child's text with exactly one newline; where the line's own spans are
/// empty it is the child's text alone.
pub proof fn lemma_line_text_joins_child(l: LineV)
    requires
        l.child is Some,
    ensures
        l.spans.len() > 0 ==> tc_line(l) == tc_spans(l.spans) + "\n"@ + tc_block(*l.child->0),
        l.spans.len() == 0 ==> tc_line(l) == tc_block(*l.child->0),
{
}

/// A character of the markup-preserving format's delimiter alphabet.
pub open spec fn is_delim(c: char) -> bool {
    c == '*' || c == '_' || c == '~' || c == '`' || c == '#' || c == '[' || c == ']' || c == '('
        || c == ')'
}

/// No character of the text belongs to the delimiter alphabet.
pub open spec fn delim_free(s: Seq<char>) -> bool {
    forall|i: int| 0 <= i < s.len() ==> !is_delim(#[trigger] s[i])
}

/// No character of the text belongs to the delimiter alphabet, except
/// possibly the star, which also serves as the plain format's unordered
/// list marker.
pub open spec fn delim_free_but_star(s: Seq<char>) -> bool {
    forall|i: int| 0 <= i < s.len() ==> (!is_delim(#[trigger] s[i]) || s[i] == '*')
}

/// Whether the text carried by the leaves of a span is free of delimiter
/// characters.
pub open spec fn clean_span(s: SpanV) -> bool
    decreases s,
{
    match s {
        SpanV::Text(t) => delim_free(t),
        SpanV::Markup(k, inner) => clean_spans(inner),
    }
}

/// Whether every leaf under a run of spans is free of delimiters.
pub open spec fn clean_spans(s: Seq<SpanV>) -> bool
    decreases s,
{
    s.len() == 0 || (clean_span(s[0]) && clean_spans(s.drop_first()))
}

/// Whether every leaf under a line is free of delimiters.
pub open spec fn clean_line(l: LineV) -> bool
    decreases l,
{
    clean_spans(l.spans) && (match l.child {
        Option::None => true,
        Option::Some(b) => clean_block(*b),
    })
}

/// Whether every leaf under a sequence of lines is free of delimiters.
pub open spec fn clean_lines(s: Seq<LineV>) -> bool
    decreases s,
{
    s.len() == 0 || (clean_line(s[0]) && clean_lines(s.drop_first()))
}

/// Whether every text leaf under a block is free of delimiters.
pub open spec fn clean_block(b: BlockV) -> bool
    decreases b,
{
    match b {
        BlockV::Header(lv, ss) => clean_spans(ss),
        BlockV::List(kind, items) => clean_lines(items),
        BlockV::Code(t) => delim_free(t),
        BlockV::Quote(content) => clean_blocks(content),
    }
}

/// Whether every text leaf under a sequence of blocks is free of
/// delimiters.
pub open spec fn clean_blocks(s: Seq<BlockV>) -> bool
    decreases s,
{
    s.len() == 0 || (clean_block(s[0]) && clean_blocks(s.drop_first()))
}

proof fn lemma_df_concat(a: Seq<char>, b: Seq<char>)
    requires
        delim_free(a),
        delim_free(b),
    ensures
        delim_free(a + b),
{
    assert forall|i: int| 0 <= i < (a + b).len() implies !is_delim((a + b)[i]) by {
        if i < a.len() {
            assert((a + b)[i] == a[i]);
        } else {
            assert((a + b)[i] == b[i - a.len()]);
        }
    }
}

proof fn lemma_dfbs_concat(a: Seq<char>, b: Seq<char>)
    requires
        delim_free_but_star(a),
        delim_free_but_star(b),
    ensures
        delim_free_but_star(a + b),
{
    assert forall|i: int| 0 <= i < (a + b).len() implies (!is_delim((a + b)[i]) || (a + b)[i]
        == '*') by {
        if i < a.len() {
            assert((a + b)[i] == a[i]);
        } else {
            assert((a + b)[i] == b[i - a.len()]);
        }
    }
}

proof fn lemma_df_is_dfbs(a: Seq<char>)
    requires
        delim_free(a),
    ensures
        delim_free_but_star(a),
{
}

proof fn lemma_nl_free()
    ensures
        delim_free("\n"@),
        delim_free("\n\n"@),
{
    reveal_strlit("\n");
    reveal_strlit("\n\n");
    assert forall|i: int| 0 <= i < "\n"@.len() implies !is_delim("\n"@[i]) by {
        assert("\n"@[i] == '\n');
    }
    assert forall|i: int| 0 <= i < "\n\n"@.len() implies !is_delim("\n\n"@[i]) by {
        assert("\n\n"@[i] == '\n');
    }
}

proof fn lemma_dec_rep_free(n: nat)
    ensures
        delim_free(dec_rep(n)),
    decreases n,
{
    if n < 10 {
        assert(!is_delim(digit_char(n as int)));
        assert forall|i: int| 0 <= i < dec_rep(n).len() implies !is_delim(dec_rep(n)[i]) by {
            assert(dec_rep(n)[i] == digit_char(n as int));
        }
    } else {
        lemma_dec_rep_free(n / 10);
        assert(!is_delim(digit_char((n % 10) as int)));
        assert(delim_free(seq![digit_char((n % 10) as int)])) by {
            let d = seq![digit_char((n % 10) as int)];
            assert forall|i: int| 0 <= i < d.len() implies !is_delim(#[trigger] d[i]) by {
                assert(d[i] == digit_char((n % 10) as int));
            }
        }
        lemma_df_concat(dec_rep(n / 10), seq![digit_char((n % 10) as int)]);
    }
}

proof fn lemma_plain_marker_safe(kind: crate::note::block::BlockKind, n: nat)
    ensures
        delim_free_but_star(plain_marker(kind, n)),
{
    reveal_strlit("* ");
    reveal_strlit(". ");
    match kind {
        crate::note::block::BlockKind::Ul => {
            assert forall|i: int| 0 <= i < "* "@.len() implies (!is_delim("* "@[i]) || "* "@[i]
                == '*') by {
                if i == 0 {
                    assert("* "@[i] == '*');
                } else {
                    assert("* "@[i] == ' ');
                }
            }
        },
        crate::note::block::BlockKind::Ol => {
            lemma_dec_rep_free(n);
            assert(delim_free(". "@)) by {
                assert forall|i: int| 0 <= i < ". "@.len() implies !is_delim(". "@[i]) by {
                    if i == 0 {
                        assert(". "@[i] == '.');
                    } else {
                        assert(". "@[i] == ' ');
                    }
                }
            }
            lemma_df_concat(dec_rep(n), ". "@);
            lemma_df_is_dfbs(dec_rep(n) + ". "@);
        },
    }
}

/// The plain format writes no delimiter into inline content: the text of
/// a clean run of spans is free of the whole delimiter alphabet.
pub proof fn lemma_text_content_no_delimiters(ss: Seq<SpanV>)
    requires
        clean_spans(ss),
    ensures
        delim_free(tc_spans(ss)),
    decreases ss, 1int,
{
    if ss.len() > 0 {
        lemma_span_text_no_delimiters(ss[0]);
        lemma_text_content_no_delimiters(ss.drop_first());
        lemma_df_concat(tc_span(ss[0]), tc_spans(ss.drop_first()));
    }
}

proof fn lemma_span_text_no_delimiters(s: SpanV)
    requires
        clean_span(s),
    ensures
        delim_free(tc_span(s)),
    decreases s, 0int,
{
    match s {
        SpanV::Text(t) => {
        },
        SpanV::Markup(k, inner) => {
            lemma_text_content_no_delimiters(inner);
        },
    }
}

proof fn lemma_plain_line_no_delimiters(l: LineV)
    requires
        clean_line(l),
    ensures
        delim_free_but_star(plain_line(l)),
    decreases l,
{
    lemma_text_content_no_delimiters(l.spans);
    lemma_df_is_dfbs(tc_spans(l.spans));
    match l.child {
        Option::None => {
        },
        Option::Some(b) => {
            lemma_plain_block_no_delimiters(*b);
            lemma_nl_free();
            lemma_df_is_dfbs("\n"@);
            lemma_dfbs_concat(tc_spans(l.spans), "\n"@);
            lemma_dfbs_concat(tc_spans(l.spans) + "\n"@, plain_block(*b));
        },
    }
}

proof fn lemma_plain_lines_no_delimiters(kind: crate::note::block::BlockKind, s: Seq<LineV>, n: nat)
    requires
        clean_lines(s),
    ensures
        delim_free_but_star(plain_lines(kind, s, n)),
    decreases s,
{
    if s.len() > 0 {
        lemma_plain_marker_safe(kind, n);
        lemma_plain_line_no_delimiters(s[0]);
        lemma_dfbs_concat(plain_marker(kind, n), plain_line(s[0]));
        if s.len() > 1 {
            lemma_nl_free();
            lemma_df_is_dfbs("\n"@);
            lemma_plain_lines_no_delimiters(kind, s.drop_first(), n + 1);
            lemma_dfbs_concat(plain_marker(kind, n) + plain_line(s[0]), "\n"@);
            lemma_dfbs_concat(
                plain_marker(kind, n) + plain_line(s[0]) + "\n"@,
                plain_lines(kind, s.drop_first(), n + 1),
            );
        }
    }
}

proof fn lemma_plain_block_no_delimiters(b: BlockV)
    requires
        clean_block(b),
    ensures
        delim_free_but_star(plain_block(b)),
    decreases b,
{
    match b {
        BlockV::Header(lv, ss) => {
            lemma_text_content_no_delimiters(ss);
            lemma_df_is_dfbs(tc_spans(ss));
        },
        BlockV::List(kind, items) => {
            lemma_plain_lines_no_delimiters(kind, items, 1);
        },
        BlockV::Code(t) => {
            lemma_df_is_dfbs(t);
        },
        BlockV::Quote(content) => {
            lemma_plain_blocks_no_delimiters(content);
        },
    }
}

/// The plain format inserts no delimiter anywhere: where every text leaf
/// of a document is free of the delimiter alphabet, its plain rendering
/// contains no delimiter character, except the star that writes the
/// unordered list marker.  A document whose own text carries a delimiter
/// character, such as a leaf reading a lone star, shows that the law can
/// promise nothing about characters the source itself supplies.
pub proof fn lemma_plain_blocks_no_delimiters(s: Seq<BlockV>)
    requires
        clean_blocks(s),
    ensures
        delim_free_but_star(plain_blocks(s)),
    decreases s,
{
    if s.len() > 0 {
        lemma_plain_block_no_delimiters(s[0]);
        if s.len() > 1 {
            lemma_nl_free();
            lemma_df_is_dfbs("\n\n"@);
            lemma_plain_blocks_no_delimiters(s.drop_first());
            lemma_dfbs_concat(plain_block(s[0]), "\n\n"@);
            lemma_dfbs_concat(plain_block(s[0]) + "\n\n"@, plain_blocks(s.drop_first()));
        }
    }
}

} // verus!
