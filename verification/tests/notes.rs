use stoat::note::{
    Block, BlockKind, Line, Markdown, Metadata, MarkupKind, MarkupSpan, MarkupTag, Note, NoteId,
    ParseError, PlainText, Render, Span, SpanCtx, TextContent, TextSpan, Token,
};
use stoat::note::parse::{take_lines_until, take_spans};
use stoat::Notebook;

fn text_span(s: &str) -> Span {
    Span::Text(TextSpan {
        text: s.to_string(),
    })
}

fn ul_block(items: Vec<Line>) -> Block {
    Block::List {
        kind: BlockKind::Ul,
        items,
    }
}

#[test]
fn test() {
    println!("{}", chrono::Utc::now());
    let note = Note {
        id: "1".into(),
        metadata: Metadata {
            title: Some("title".to_string()),
            created: None,
            modified: None,
        },
        content: vec![ul_block(vec![Line {
            spans: vec![text_span("text")],
            child: None,
        }])],
    };

    let content = Render::<PlainText>::render(&note.content);

    assert_eq!(content.as_str(), "* text");
}

#[test]
fn unordered_item_parses_and_renders() {
    let note = Note::create("n".into(), "- text").unwrap();
    assert_eq!(note.content.len(), 1);
    match &note.content[0] {
        Block::List { kind, items } => {
            assert!(matches!(kind, BlockKind::Ul));
            assert_eq!(items.len(), 1);
            assert!(items[0].child.is_none());
            assert_eq!(items[0].text_content(), "text");
        }
        other => panic!("expected a list, got {other:?}"),
    }
    let md: Markdown = Render::<Markdown>::render(&note.content[0]);
    assert_eq!(md.as_str(), "- text");
    assert_eq!(note.content[0].text_content(), "text");
}

#[test]
fn inline_run_builds_annotations() {
    let tokens = vec![
        Token::MarkupStart(MarkupKind::Strong),
        Token::Text("bold".to_string()),
        Token::MarkupEnd(MarkupTag::Strong),
        Token::Text(" and ".to_string()),
        Token::MarkupStart(MarkupKind::Emphasis),
        Token::Text("em".to_string()),
        Token::MarkupEnd(MarkupTag::Emphasis),
        Token::HeaderEnd,
    ];
    let (spans, consumed) = take_spans(&tokens, 0, SpanCtx::Header).unwrap();
    assert_eq!(consumed, 8);
    assert_eq!(spans.len(), 3);
    match &spans[0] {
        Span::Markup(MarkupSpan { kind: MarkupKind::Strong, inner }) => {
            assert_eq!(inner.len(), 1);
            assert_eq!(inner[0].text_content(), "bold");
        }
        other => panic!("expected strong markup, got {other:?}"),
    }
    match &spans[1] {
        Span::Text(t) => assert_eq!(t.text, " and "),
        other => panic!("expected text, got {other:?}"),
    }
    match &spans[2] {
        Span::Markup(MarkupSpan { kind: MarkupKind::Emphasis, inner }) => {
            assert_eq!(inner[0].text_content(), "em");
        }
        other => panic!("expected emphasis markup, got {other:?}"),
    }
    let md: Markdown = Render::<Markdown>::render(&spans);
    assert_eq!(md.as_str(), "**bold** and _em_");
    let plain: PlainText = Render::<PlainText>::render(&spans);
    assert_eq!(plain.as_str(), "bold and em");
}

#[test]
fn inline_run_from_markdown_text() {
    let note = Note::create("n".into(), "- **bold** and _em_").unwrap();
    let md: Markdown = Render::<Markdown>::render(&note.content);
    assert_eq!(md.as_str(), "- **bold** and _em_");
    assert_eq!(note.content[0].text_content(), "bold and em");
}

#[test]
fn plain_render_strips_delimiters() {
    let note = Note::create("n".into(), "- **bold** and _em_ x").unwrap();
    let plain: PlainText = Render::<PlainText>::render(&note.content);
    assert_eq!(plain.as_str(), "* bold and em x");
    for c in ['_', '~', '`', '#', '[', ']', '(', ')'] {
        assert!(!plain.as_str().contains(c));
    }
}

#[test]
fn no_preamble_yields_absent_metadata() {
    let note = Note::create("n".into(), "- x").unwrap();
    assert_eq!(note.metadata, Metadata { title: None, created: None, modified: None });
}

#[test]
fn empty_preamble_yields_absent_metadata() {
    let note = Note::create("n".into(), "---\n{}\n---\n- x").unwrap();
    assert_eq!(note.metadata, Metadata { title: None, created: None, modified: None });
}

#[test]
fn blank_preamble_yields_absent_metadata() {
    let note = Note::create("n".into(), "---\n---\n- x").unwrap();
    assert_eq!(note.metadata, Metadata { title: None, created: None, modified: None });
}

#[test]
fn unparsable_date_is_absent_not_fatal() {
    let text = "---\ncreated: not-a-date\ntitle: x\n---\n- ok";
    let note = Note::create("n".into(), text).unwrap();
    assert_eq!(note.metadata.title.as_deref(), Some("x"));
    assert_eq!(note.metadata.created, None);
    assert_eq!(note.content[0].text_content(), "ok");
}

#[test]
fn parsable_date_is_read() {
    let text = "---\ncreated: 2021-01-01T00:00:00Z\nmodified: 2021-01-02T00:00:00Z\n---\n- ok";
    let note = Note::create("n".into(), text).unwrap();
    assert_eq!(note.metadata.created, Some(1609459200000));
    assert_eq!(note.metadata.modified, Some(1609545600000));
}

#[test]
fn non_string_title_is_absent() {
    let note = Note::create("n".into(), "---\ntitle: 3\n---\n- x").unwrap();
    assert_eq!(note.metadata.title, None);
}

#[test]
fn title_is_kept() {
    let note = Note::create("n".into(), "---\ntitle: hello world\n---\n- x").unwrap();
    assert_eq!(note.metadata.title.as_deref(), Some("hello world"));
}

#[test]
fn paragraph_is_unknown_block() {
    let err = Note::create("n".into(), "hello").unwrap_err();
    assert_eq!(err, ParseError::UnknownBlockConstruct);
}

#[test]
fn unterminated_inline_context() {
    let tokens = vec![Token::Text("a".to_string())];
    let err = take_spans(&tokens, 0, SpanCtx::Header).unwrap_err();
    assert_eq!(err, ParseError::UnterminatedConstruct);
}

#[test]
fn unterminated_list() {
    let tokens = vec![
        Token::ItemStart,
        Token::Text("a".to_string()),
        Token::ItemEnd,
    ];
    let err = take_lines_until(&tokens, 0).unwrap_err();
    assert_eq!(err, ParseError::UnterminatedConstruct);
}

#[test]
fn unknown_token_between_items() {
    let tokens = vec![Token::Unknown, Token::ListEnd];
    let err = take_lines_until(&tokens, 0).unwrap_err();
    assert_eq!(err, ParseError::UnknownBlockConstruct);
}

#[test]
fn nested_list_renders_on_two_lines() {
    let note = Note::create("n".into(), "- a\n  - b").unwrap();
    assert_eq!(note.content.len(), 1);
    match &note.content[0] {
        Block::List { items, .. } => {
            assert_eq!(items.len(), 1);
            assert_eq!(items[0].text_content(), "a\nb");
            assert!(items[0].child.is_some());
        }
        other => panic!("expected a list, got {other:?}"),
    }
    let md: Markdown = Render::<Markdown>::render(&note.content[0]);
    assert_eq!(md.as_str(), "- a\n- b");
    assert_eq!(note.content[0].text_content(), "a\nb");
}

#[test]
fn labelless_line_text_is_childs_text() {
    let child = ul_block(vec![Line {
        spans: vec![text_span("inner")],
        child: None,
    }]);
    let line = Line {
        spans: vec![],
        child: Some(Box::new(child)),
    };
    assert_eq!(line.text_content(), "inner");
}

#[test]
fn ordered_list_renders_indices() {
    let note = Note::create("n".into(), "1. a\n2. b").unwrap();
    match &note.content[0] {
        Block::List { kind, items } => {
            assert!(matches!(kind, BlockKind::Ol));
            assert_eq!(items.len(), 2);
        }
        other => panic!("expected a list, got {other:?}"),
    }
    let md: Markdown = Render::<Markdown>::render(&note.content[0]);
    assert_eq!(md.as_str(), "1. a\n2. b");
    let plain: PlainText = Render::<PlainText>::render(&note.content[0]);
    assert_eq!(plain.as_str(), "1. a\n2. b");
}

#[test]
fn long_ordered_list_markers() {
    let items: Vec<Line> = (0..12)
        .map(|_| Line {
            spans: vec![text_span("x")],
            child: None,
        })
        .collect();
    let block = Block::List {
        kind: BlockKind::Ol,
        items,
    };
    let md: Markdown = Render::<Markdown>::render(&block);
    let lines: Vec<&str> = md.as_str().split('\n').collect();
    assert_eq!(lines[9], "10. x");
    assert_eq!(lines[11], "12. x");
}

#[test]
fn code_block_is_verbatim() {
    let note = Note::create("n".into(), "```\nlet x = 1;\n```").unwrap();
    match &note.content[0] {
        Block::Code { text } => assert_eq!(text, "let x = 1;\n"),
        other => panic!("expected code, got {other:?}"),
    }
    assert_eq!(note.content[0].text_content(), "let x = 1;\n");
    let md: Markdown = Render::<Markdown>::render(&note.content[0]);
    assert_eq!(md.as_str(), "```\nlet x = 1;\n```");
}

#[test]
fn quote_wraps_blocks() {
    let note = Note::create("n".into(), "> - q").unwrap();
    match &note.content[0] {
        Block::Quote { content } => {
            assert_eq!(content.len(), 1);
            assert!(matches!(content[0], Block::List { .. }));
        }
        other => panic!("expected a quote, got {other:?}"),
    }
    assert_eq!(note.content[0].text_content(), "q");
    let md: Markdown = Render::<Markdown>::render(&note.content[0]);
    assert_eq!(md.as_str(), "> - q");
}

#[test]
fn header_level_and_text() {
    let note = Note::create("n".into(), "## Hi").unwrap();
    match &note.content[0] {
        Block::Header { level, spans } => {
            assert_eq!(*level, 2);
            assert_eq!(spans.len(), 1);
        }
        other => panic!("expected a header, got {other:?}"),
    }
    assert_eq!(note.content[0].text_content(), "Hi");
    let md: Markdown = Render::<Markdown>::render(&note.content[0]);
    assert_eq!(md.as_str(), "## Hi");
    let plain: PlainText = Render::<PlainText>::render(&note.content[0]);
    assert_eq!(plain.as_str(), "Hi");
}

#[test]
fn empty_body_is_empty_note() {
    let note = Note::create("n".into(), "").unwrap();
    assert_eq!(note.content.len(), 0);
    let md: Markdown = Render::<Markdown>::render(&note.content);
    assert_eq!(md.as_str(), "");
    let plain: PlainText = Render::<PlainText>::render(&note.content);
    assert_eq!(plain.as_str(), "");
}

#[test]
fn empty_span_sequence_has_empty_text() {
    let spans: Vec<Span> = vec![];
    let plain: PlainText = Render::<PlainText>::render(&spans);
    assert_eq!(plain.as_str(), "");
    let md: Markdown = Render::<Markdown>::render(&spans);
    assert_eq!(md.as_str(), "");
}

#[test]
fn round_trip_markdown() {
    let text = "# Title\n\n- **bold** and _em_\n- second\n\n1. one\n2. two\n\n```\ncode here\n```";
    let note = Note::create("n".into(), text).unwrap();
    let md: Markdown = Render::<Markdown>::render(&note.content);
    let again = Note::create("n".into(), md.as_str()).unwrap();
    let md2: Markdown = Render::<Markdown>::render(&again.content);
    assert_eq!(md.as_str(), md2.as_str());
    let tc1: Vec<String> = note.content.iter().map(|b| b.text_content()).collect();
    let tc2: Vec<String> = again.content.iter().map(|b| b.text_content()).collect();
    assert_eq!(tc1, tc2);
}

#[test]
fn blocks_join_with_blank_line() {
    let note = Note::create("n".into(), "- a\n\n# b").unwrap();
    assert_eq!(note.content.len(), 2);
    let md: Markdown = Render::<Markdown>::render(&note.content);
    assert_eq!(md.as_str(), "- a\n\n# b");
}

#[test]
fn markup_kinds_render_their_delimiters() {
    let mk = |kind: MarkupKind, inner: &str| {
        Span::Markup(MarkupSpan {
            kind,
            inner: vec![text_span(inner)],
        })
    };
    let cases = vec![
        (mk(MarkupKind::Strong, "a"), "**a**"),
        (mk(MarkupKind::Emphasis, "a"), "_a_"),
        (mk(MarkupKind::Underline, "a"), "__a__"),
        (mk(MarkupKind::Strikeout, "a"), "~~a~~"),
        (mk(MarkupKind::Code, "a"), "`a`"),
        (mk(MarkupKind::Tag, "a"), "#a"),
        (mk(MarkupKind::Link("dest".to_string()), "a"), "[a](dest)"),
    ];
    for (span, expected) in cases {
        let md: Markdown = Render::<Markdown>::render(&span);
        assert_eq!(md.as_str(), expected);
        let plain: PlainText = Render::<PlainText>::render(&span);
        assert_eq!(plain.as_str(), "a");
        assert_eq!(span.text_content(), "a");
    }
}

#[test]
fn inline_code_becomes_code_markup() {
    let note = Note::create("n".into(), "- before `let` after").unwrap();
    match &note.content[0] {
        Block::List { items, .. } => {
            let has_code = items[0].spans.iter().any(|s| {
                matches!(
                    s,
                    Span::Markup(MarkupSpan {
                        kind: MarkupKind::Code,
                        ..
                    })
                )
            });
            assert!(has_code);
        }
        other => panic!("expected a list, got {other:?}"),
    }
    assert_eq!(note.content[0].text_content(), "before let after");
    let md: Markdown = Render::<Markdown>::render(&note.content[0]);
    assert_eq!(md.as_str(), "- before `let` after");
}

#[test]
fn note_id_wraps_string() {
    let a = NoteId::from("abc");
    let b = NoteId::from("abc".to_string());
    assert_eq!(a, b);
    assert_eq!(a.as_str(), "abc");
    assert!(NoteId::from("a") < NoteId::from("b"));
}

#[test]
fn notebook_stores_notes() {
    let mut book = Notebook::default();
    assert!(book.store.is_empty());
    let note = Note::create("k".into(), "- x").unwrap();
    book.store.insert(note.id.clone(), note);
    assert_eq!(book.store.len(), 1);
    assert!(book.store.contains_key(&NoteId::from("k")));
}
