use vstd::prelude::*;
use vstd::string::StringExecFns;

use crate::note::TextContent;

verus! {

/// A run of literal text inside a line of a note.
#[derive(Clone, Debug, PartialEq, Eq)]
pub struct TextSpan {
    pub text: String,
}

/// The kind of formatting that a markup span applies to its inner spans.
/// `Link` carries the path that the link points at.
#[derive(Clone, Debug, PartialEq, Eq)]
pub enum MarkupKind {
    Strong,
    Emphasis,
    Underline,
    Strikeout,
    Code,
    Tag,
    Link(String),
}

/// The kind of a markup span with any payload stripped: the shape by which
/// a closing marker in the token stream is recognized.
#[derive(Clone, Copy, Debug, PartialEq, Eq, Structural)]
pub enum MarkupTag {
    Strong,
    Emphasis,
    Underline,
    Strikeout,
    Code,
    Tag,
    Link,
}

/// A formatted region of a line: one kind of markup applied to nested spans.
#[derive(Debug)]
pub struct MarkupSpan {
    pub kind: MarkupKind,
    pub inner: Vec<Span>,
}

/// One unit of inline content: literal text, or a markup region that owns
/// further spans.
#[derive(Debug)]
pub enum Span {
    Text(TextSpan),
    Markup(MarkupSpan),
}

/// The mathematical value of a `MarkupKind`.
#[verifier::ext_equal]
pub enum KindV {
    Strong,
    Emphasis,
    Underline,
    Strikeout,
    Code,
    Tag,
    Link(Seq<char>),
}

/// The mathematical value of a `Span`: the tree shape with strings taken
/// as character sequences.
#[verifier::ext_equal]
pub enum SpanV {
    Text(Seq<char>),
    Markup(KindV, Seq<SpanV>),
}

/// The value of a markup kind.
pub open spec fn kind_v(k: MarkupKind) -> KindV {
    match k {
        MarkupKind::Strong => KindV::Strong,
        MarkupKind::Emphasis => KindV::Emphasis,
        MarkupKind::Underline => KindV::Underline,
        MarkupKind::Strikeout => KindV::Strikeout,
        MarkupKind::Code => KindV::Code,
        MarkupKind::Tag => KindV::Tag,
        MarkupKind::Link(t) => KindV::Link(t@),
    }
}

/// The tag of a markup kind value: its shape with the link path stripped.
pub open spec fn tag_of(k: KindV) -> MarkupTag {
    match k {
        KindV::Strong => MarkupTag::Strong,
        KindV::Emphasis => MarkupTag::Emphasis,
        KindV::Underline => MarkupTag::Underline,
        KindV::Strikeout => MarkupTag::Strikeout,
        KindV::Code => MarkupTag::Code,
        KindV::Tag => MarkupTag::Tag,
        KindV::Link(t) => MarkupTag::Link,
    }
}

/// The value of a span.
pub open spec fn span_v(s: Span) -> SpanV
    decreases s,
{
    match s {
        Span::Text(t) => SpanV::Text(t.text@),
        Span::Markup(m) => SpanV::Markup(kind_v(m.kind), spans_v(m.inner@)),
    }
}

/// The values of a sequence of spans, element by element.
pub open spec fn spans_v(s: Seq<Span>) -> Seq<SpanV>
    decreases s,
{
    if s.len() == 0 {
        Seq::empty()
    } else {
        seq![span_v(s[0])] + spans_v(s.drop_first())
    }
}

/// The length of the value sequence equals the length of the span sequence.
pub broadcast proof fn lemma_spans_v_len(s: Seq<Span>)
    ensures
        (#[trigger] spans_v(s)).len() == s.len(),
    decreases s,
{
    if s.len() > 0 {
        lemma_spans_v_len(s.drop_first());
    }
}

/// The value sequence of spans is the element-wise value.
pub broadcast proof fn lemma_spans_v_index(s: Seq<Span>, i: int)
    requires
        0 <= i < s.len(),
    ensures
        #[trigger] spans_v(s)[i] == span_v(s[i]),
    decreases s,
{
    if i == 0 {
        assert(spans_v(s) == seq![span_v(s[0])] + spans_v(s.drop_first()));
        assert((seq![span_v(s[0])] + spans_v(s.drop_first()))[0] == span_v(s[0]));
    } else {
        lemma_spans_v_len(s.drop_first());
        lemma_spans_v_index(s.drop_first(), i - 1);
        assert(spans_v(s) == seq![span_v(s[0])] + spans_v(s.drop_first()));
        assert(spans_v(s)[i] == spans_v(s.drop_first())[i - 1]);
        assert(s.drop_first()[i - 1] == s[i]);
    }
}

/// Putting one span in front of a sequence puts its value in front of the
/// value sequence.
pub proof fn lemma_spans_v_cons(x: Span, s: Seq<Span>)
    ensures
        spans_v(seq![x] + s) == seq![span_v(x)] + spans_v(s),
{
    assert((seq![x] + s)[0] == x);
    assert((seq![x] + s).drop_first() =~= s);
}

/// The value sequence of a single span.
pub proof fn lemma_spans_v_one(x: Span)
    ensures
        spans_v(seq![x]) == seq![span_v(x)],
{
    lemma_spans_v_cons(x, Seq::empty());
    assert(seq![x] + Seq::<Span>::empty() =~= seq![x]);
    assert(seq![span_v(x)] + spans_v(Seq::empty()) =~= seq![span_v(x)]);
}

/// The markup-free text of one span: literal text passes through, markup
/// contributes only the text of its inner spans.
pub open spec fn tc_span(s: SpanV) -> Seq<char>
    decreases s,
{
    match s {
        SpanV::Text(t) => t,
        SpanV::Markup(k, inner) => tc_spans(inner),
    }
}

/// The markup-free text of a run of spans: the texts of the elements,
/// concatenated in order with no separator.
pub open spec fn tc_spans(s: Seq<SpanV>) -> Seq<char>
    decreases s,
{
    if s.len() == 0 {
        Seq::empty()
    } else {
        tc_span(s[0]) + tc_spans(s.drop_first())
    }
}

/// The tag of a markup kind, computed.
pub fn markup_tag(k: &MarkupKind) -> (r: MarkupTag)
    ensures
        r == tag_of(kind_v(*k)),
{
    match k {
        MarkupKind::Strong => MarkupTag::Strong,
        MarkupKind::Emphasis => MarkupTag::Emphasis,
        MarkupKind::Underline => MarkupTag::Underline,
        MarkupKind::Strikeout => MarkupTag::Strikeout,
        MarkupKind::Code => MarkupTag::Code,
        MarkupKind::Tag => MarkupTag::Tag,
        MarkupKind::Link(_) => MarkupTag::Link,
    }
}

/// The markup-free text of one span, computed.
pub fn span_text(s: &Span) -> (r: String)
    ensures
        r@ == tc_span(span_v(*s)),
    decreases *s, 0int,
{
    match s {
        Span::Text(t) => t.text.clone(),
        Span::Markup(m) => {
            let r = spans_text_from(&m.inner, 0);
            proof {
                assert(m.inner@.skip(0) =~= m.inner@);
            }
            r
        },
    }
}

/// The markup-free text of the spans of `v` from position `i` on, computed.
pub fn spans_text_from(v: &Vec<Span>, i: usize) -> (r: String)
    requires
        i <= v@.len(),
    ensures
        r@ == tc_spans(spans_v(v@.skip(i as int))),
    decreases *v, v@.len() - i,
{
    if i == v.len() {
        assert(v@.skip(i as int) =~= Seq::empty());
        String::new()
    } else {
        let mut out = span_text(&v[i]);
        let rest = spans_text_from(v, i + 1);
        out.append(rest.as_str());
        proof {
            let t = v@.skip(i as int);
            assert(t[0] == v@[i as int]);
            assert(t.drop_first() =~= v@.skip(i as int + 1));
            let sv = spans_v(t);
            assert(sv == seq![span_v(t[0])] + spans_v(t.drop_first()));
            assert(sv[0] == span_v(t[0]));
            assert(sv.drop_first() =~= spans_v(t.drop_first()));
            assert(tc_spans(sv) == tc_span(sv[0]) + tc_spans(sv.drop_first()));
        }
        out
    }
}

/// The markup-free text of a whole run of spans, computed.
pub fn spans_text(v: &Vec<Span>) -> (r: String)
    ensures
        r@ == tc_spans(spans_v(v@)),
{
    let r = spans_text_from(v, 0);
    proof {
        assert(v@.skip(0) =~= v@);
    }
    r
}

impl TextContent for TextSpan {
    open spec fn text_spec(&self) -> Seq<char> {
        self.text@
    }

    fn text_content(&self) -> (r: String) {
        self.text.clone()
    }
}

impl TextContent for MarkupSpan {
    open spec fn text_spec(&self) -> Seq<char> {
        tc_spans(spans_v(self.inner@))
    }

    fn text_content(&self) -> (r: String) {
        spans_text(&self.inner)
    }
}

impl TextContent for Span {
    open spec fn text_spec(&self) -> Seq<char> {
        tc_span(span_v(*self))
    }

    fn text_content(&self) -> (r: String) {
        span_text(self)
    }
}

} // verus!
