use basalt::markdown::{
    from_str, matches_tag_end, BlockQuoteKind, Element, ElementEnd, HeadingLevel,
    ListKind, MarkdownNode, Node, Parser, Style, TaskListItemKind, Text, TextNode, Token,
};
use basalt::markdown::event::{element_of, TagParts};
use std::ops::Range;

fn tokenize(text: &str) -> Vec<(Token, Range<usize>)> {
    Parser::new(text).tokens
}

fn p(str: &str, range: Range<usize>) -> Node {
    Node::new(MarkdownNode::Paragraph { text: str.into() }, range)
}

fn blockquote(nodes: Vec<Node>, range: Range<usize>) -> Node {
    Node::new(MarkdownNode::BlockQuote { kind: None, nodes }, range)
}

fn list(kind: ListKind, nodes: Vec<Node>, range: Range<usize>) -> Node {
    Node::new(MarkdownNode::List { kind, nodes }, range)
}

fn item(str: &str, range: Range<usize>) -> Node {
    Node::new(MarkdownNode::Item { text: str.into() }, range)
}

fn unchecked_task(str: &str, range: Range<usize>) -> Node {
    Node::new(
        MarkdownNode::TaskListItem {
            kind: TaskListItemKind::Unchecked,
            text: str.into(),
        },
        range,
    )
}

fn checked_task(str: &str, range: Range<usize>) -> Node {
    Node::new(
        MarkdownNode::TaskListItem {
            kind: TaskListItemKind::Checked,
            text: str.into(),
        },
        range,
    )
}

fn heading(level: HeadingLevel, str: &str, range: Range<usize>) -> Node {
    Node::new(
        MarkdownNode::Heading {
            level,
            text: str.into(),
        },
        range,
    )
}

fn h1(str: &str, range: Range<usize>) -> Node {
    heading(HeadingLevel::H1, str, range)
}

fn h2(str: &str, range: Range<usize>) -> Node {
    heading(HeadingLevel::H2, str, range)
}

fn h3(str: &str, range: Range<usize>) -> Node {
    heading(HeadingLevel::H3, str, range)
}

fn h4(str: &str, range: Range<usize>) -> Node {
    heading(HeadingLevel::H4, str, range)
}

fn h5(str: &str, range: Range<usize>) -> Node {
    heading(HeadingLevel::H5, str, range)
}

fn h6(str: &str, range: Range<usize>) -> Node {
    heading(HeadingLevel::H6, str, range)
}

#[test]
fn parser_test_parse() {
    let tests = [
        (
            "# Heading 1\n\n## Heading 2\n\n### Heading 3\n\n#### Heading 4\n\n##### Heading 5\n\n###### Heading 6\n",
            vec![
                h1("Heading 1", 0..12),
                h2("Heading 2", 13..26),
                h3("Heading 3", 27..41),
                h4("Heading 4", 42..57),
                h5("Heading 5", 58..74),
                h6("Heading 6", 75..92),
            ],
        ),
        (
            "- [ ] Task\n- [x] Completed task\n- [?] Completed task\n",
            vec![list(
                ListKind::Unordered,
                vec![
                    unchecked_task("Task", 0..11),
                    checked_task("Completed task", 11..32),
                    item("[?] Completed task", 32..53),
                ],
                0..53,
            )],
        ),
        (
            "You _can_ quote text by adding a `>` symbols before the text.\n> Human beings face ever more complex and urgent problems, and their effectiveness in dealing with these problems is a matter that is critical to the stability and continued progress of society.\n> > > Deep Quote\n>\n> - Doug Engelbart, 1961\n",
            vec![
                Node::new(MarkdownNode::Paragraph {
                    text: vec![
                        TextNode::new("You ".into(), None),
                        TextNode::new("can".into(), None),
                        TextNode::new(" quote text by adding a ".into(), None),
                        TextNode::new(">".into(), Some(Style::Code)),
                        TextNode::new(" symbols before the text.".into(), None),
                    ]
                    .into(),
                }, 0..62),
                blockquote(
                    vec![
                        p("Human beings face ever more complex and urgent problems, and their effectiveness in dealing with these problems is a matter that is critical to the stability and continued progress of society.", 64..257),
                        blockquote(
                            vec![blockquote(vec![p("Deep Quote", 263..274)], 261..274)],
                            259..274,
                        ),
                        list(
                            ListKind::Unordered,
                            vec![item("Doug Engelbart, 1961", 278..301)],
                            278..301,
                        ),
                    ],
                    62..301,
                ),
            ],
        ),
    ];

    tests
        .iter()
        .for_each(|test| assert_eq!(from_str(test.0), test.1));
}

#[test]
fn heading_and_paragraph_with_their_ranges() {
    assert_eq!(
        from_str("# My Heading\n\nSome text."),
        vec![
            Node {
                markdown_node: MarkdownNode::Heading {
                    level: HeadingLevel::H1,
                    text: Text::from("My Heading"),
                },
                source_range: Range { start: 0, end: 13 },
            },
            Node {
                markdown_node: MarkdownNode::Paragraph {
                    text: Text::from("Some text."),
                },
                source_range: Range { start: 14, end: 24 },
            },
        ]
    );
}

#[test]
fn task_markers_make_task_items_and_other_brackets_do_not() {
    let nodes = from_str("- [ ] Task\n- [x] Completed task\n- [?] Completed task\n");
    assert_eq!(nodes.len(), 1);
    match &nodes[0].markdown_node {
        MarkdownNode::List { kind, nodes } => {
            assert_eq!(*kind, ListKind::Unordered);
            assert_eq!(nodes.len(), 3);
            assert_eq!(
                nodes[0].markdown_node,
                MarkdownNode::TaskListItem {
                    kind: TaskListItemKind::Unchecked,
                    text: "Task".into()
                }
            );
            assert_eq!(
                nodes[1].markdown_node,
                MarkdownNode::TaskListItem {
                    kind: TaskListItemKind::Checked,
                    text: "Completed task".into()
                }
            );
            assert_eq!(
                nodes[2].markdown_node,
                MarkdownNode::Item {
                    text: "[?] Completed task".into()
                }
            );
        }
        other => panic!("expected a list, got {:?}", other),
    }
}

#[test]
fn nested_block_quotes_nest_three_deep() {
    let nodes = from_str("> > > Deep Quote");
    assert_eq!(
        nodes,
        vec![blockquote(
            vec![blockquote(
                vec![blockquote(vec![p("Deep Quote", 6..16)], 4..16)],
                2..16
            )],
            0..16
        )]
    );
}

#[test]
fn ordered_list_keeps_its_start_and_holds_plain_items() {
    let nodes = from_str("1. First\n2. Second\n");
    assert_eq!(
        nodes,
        vec![list(
            ListKind::Ordered(1),
            vec![item("First", 0..9), item("Second", 9..19)],
            0..19
        )]
    );
}

#[test]
fn html_block_alone_yields_nothing() {
    assert_eq!(from_str("<div>raw</div>"), vec![]);
}

#[test]
fn parsing_twice_gives_equal_trees() {
    let text = "# Title\n\n> quote\n\n- [x] done\n- item `code`\n";
    assert_eq!(from_str(text), from_str(text));
    assert_eq!(Parser::new(text).parse(), from_str(text));
}

#[test]
fn tokenize_converts_every_kind_of_event() {
    let tokens = tokenize("## T\n\n> [!TIP]\n> q\n\n3. a\n- [x] b `c`\n\n```rust\nx\n```\n\n<b>hi</b>\n");
    let kinds: Vec<Token> = tokens.iter().map(|(token, _)| token.clone()).collect();
    assert_eq!(
        kinds[0],
        Token::Start(Element::Heading {
            level: HeadingLevel::H2
        })
    );
    assert_eq!(kinds[1], Token::Text("T".to_string()));
    assert_eq!(kinds[2], Token::End(ElementEnd::Heading));
    assert_eq!(
        kinds[3],
        Token::Start(Element::BlockQuote(Some(BlockQuoteKind::Tip)))
    );
    assert!(kinds.contains(&Token::End(ElementEnd::BlockQuote)));
    assert!(kinds.contains(&Token::Start(Element::List(Some(3)))));
    assert!(kinds.contains(&Token::Start(Element::List(None))));
    assert!(kinds.contains(&Token::End(ElementEnd::List)));
    assert!(kinds.contains(&Token::Start(Element::Item)));
    assert!(kinds.contains(&Token::End(ElementEnd::Item)));
    assert!(kinds.contains(&Token::TaskListMarker(true)));
    assert!(kinds.contains(&Token::Code("c".to_string())));
    assert!(kinds.contains(&Token::Start(Element::CodeBlock)));
    assert!(kinds.contains(&Token::End(ElementEnd::CodeBlock)));
    assert!(kinds.contains(&Token::Start(Element::Paragraph)));
    assert!(kinds.contains(&Token::End(ElementEnd::Paragraph)));
    assert!(kinds.contains(&Token::Other));
    assert_eq!(tokens[0].1, 0..5);
}

#[test]
fn tokenize_tells_heading_levels_and_callouts_apart() {
    let levels = [
        ("# a", HeadingLevel::H1),
        ("## a", HeadingLevel::H2),
        ("### a", HeadingLevel::H3),
        ("#### a", HeadingLevel::H4),
        ("##### a", HeadingLevel::H5),
        ("###### a", HeadingLevel::H6),
    ];
    for (text, level) in levels {
        assert_eq!(
            tokenize(text)[0].0,
            Token::Start(Element::Heading { level })
        );
    }
    let kinds = [
        ("> [!NOTE]\n> a", Some(BlockQuoteKind::Note)),
        ("> [!TIP]\n> a", Some(BlockQuoteKind::Tip)),
        ("> [!IMPORTANT]\n> a", Some(BlockQuoteKind::Important)),
        ("> [!WARNING]\n> a", Some(BlockQuoteKind::Warning)),
        ("> [!CAUTION]\n> a", Some(BlockQuoteKind::Caution)),
        ("> a", None),
    ];
    for (text, kind) in kinds {
        assert_eq!(tokenize(text)[0].0, Token::Start(Element::BlockQuote(kind)));
    }
}

#[test]
fn callout_kind_reaches_the_block_quote_node() {
    let nodes = from_str("> [!WARNING]\n> Careful");
    match &nodes[0].markdown_node {
        MarkdownNode::BlockQuote { kind, nodes } => {
            assert_eq!(*kind, Some(BlockQuoteKind::Warning));
            assert_eq!(nodes.len(), 1);
        }
        other => panic!("expected a block quote, got {:?}", other),
    }
}

fn events(list: Vec<(Token, Range<usize>)>) -> Vec<Node> {
    Parser::parse_events(&list)
}

#[test]
fn close_event_without_open_container_is_dropped() {
    let nodes = events(vec![
        (Token::End(ElementEnd::BlockQuote), 0..1),
        (Token::Start(Element::Paragraph), 1..5),
        (Token::Text("a".to_string()), 1..2),
        (Token::End(ElementEnd::List), 2..3),
        (Token::End(ElementEnd::Paragraph), 1..5),
    ]);
    assert_eq!(nodes, vec![p("a", 1..5)]);
}

#[test]
fn text_without_an_open_leaf_is_dropped() {
    let nodes = events(vec![
        (Token::Text("lost".to_string()), 0..4),
        (Token::Start(Element::BlockQuote(None)), 4..9),
        (Token::Code("lost too".to_string()), 5..6),
        (Token::End(ElementEnd::BlockQuote), 4..9),
        (Token::Text("into the empty quote".to_string()), 9..10),
    ]);
    assert_eq!(nodes, vec![blockquote(vec![], 4..9)]);
}

#[test]
fn text_after_a_closed_container_reaches_its_last_leaf() {
    let nodes = events(vec![
        (Token::Start(Element::BlockQuote(None)), 0..9),
        (Token::Start(Element::Paragraph), 2..5),
        (Token::Text("a".to_string()), 2..3),
        (Token::End(ElementEnd::Paragraph), 2..5),
        (Token::End(ElementEnd::BlockQuote), 0..9),
        (Token::Code("b".to_string()), 9..10),
    ]);
    assert_eq!(
        nodes,
        vec![blockquote(
            vec![Node::new(
                MarkdownNode::Paragraph {
                    text: vec![
                        TextNode::new("a".into(), None),
                        TextNode::new("b".into(), Some(Style::Code)),
                    ]
                    .into()
                },
                2..5
            )],
            0..9
        )]
    );
}

#[test]
fn containers_still_open_at_the_end_are_closed() {
    let nodes = events(vec![
        (Token::Start(Element::List(Some(4))), 0..9),
        (Token::Start(Element::Item), 0..4),
        (Token::Start(Element::BlockQuote(Some(BlockQuoteKind::Note))), 4..9),
        (Token::Start(Element::CodeBlock), 5..9),
    ]);
    assert_eq!(
        nodes,
        vec![list(
            ListKind::Ordered(4),
            vec![
                Node::new(MarkdownNode::Item { text: Text::default() }, 0..4),
                Node::new(
                    MarkdownNode::BlockQuote {
                        kind: Some(BlockQuoteKind::Note),
                        nodes: vec![Node::new(
                            MarkdownNode::CodeBlock {
                                lang: None,
                                text: Text::default()
                            },
                            5..9
                        )]
                    },
                    4..9
                )
            ],
            0..9
        )]
    );
}

#[test]
fn task_marker_keeps_range_and_text_of_the_item() {
    let nodes = events(vec![
        (Token::Start(Element::List(None)), 0..9),
        (Token::Start(Element::Item), 0..9),
        (Token::Text("early".to_string()), 2..7),
        (Token::TaskListMarker(true), 2..5),
        (Token::Text(" late".to_string()), 5..9),
        (Token::End(ElementEnd::Item), 0..9),
        (Token::End(ElementEnd::List), 0..9),
    ]);
    assert_eq!(
        nodes,
        vec![list(
            ListKind::Unordered,
            vec![Node::new(
                MarkdownNode::TaskListItem {
                    kind: TaskListItemKind::Checked,
                    text: vec![
                        TextNode::new("early".into(), None),
                        TextNode::new(" late".into(), None)
                    ]
                    .into()
                },
                0..9
            )],
            0..9
        )]
    );
}

#[test]
fn task_marker_with_nothing_open_changes_nothing() {
    assert_eq!(events(vec![(Token::TaskListMarker(false), 0..3)]), vec![]);
}

#[test]
fn only_unsupported_events_yield_nothing() {
    let nodes = events(vec![
        (Token::Start(Element::Other), 0..9),
        (Token::Other, 0..9),
        (Token::Text("cell".to_string()), 1..5),
        (Token::End(ElementEnd::Other), 0..9),
    ]);
    assert_eq!(nodes, vec![]);
}

#[test]
fn matches_tag_end_pairs_each_element_with_its_end() {
    let h = Element::Heading {
        level: HeadingLevel::H3,
    };
    assert!(matches_tag_end(&Element::Paragraph, &ElementEnd::Paragraph));
    assert!(matches_tag_end(&h, &ElementEnd::Heading));
    assert!(matches_tag_end(&Element::BlockQuote(None), &ElementEnd::BlockQuote));
    assert!(matches_tag_end(&Element::CodeBlock, &ElementEnd::CodeBlock));
    assert!(matches_tag_end(&Element::List(Some(1)), &ElementEnd::List));
    assert!(matches_tag_end(&Element::Item, &ElementEnd::Item));
    assert!(!matches_tag_end(&Element::Item, &ElementEnd::List));
    assert!(!matches_tag_end(&Element::Other, &ElementEnd::Other));
    assert!(!matches_tag_end(&Element::BlockQuote(None), &ElementEnd::Paragraph));
}

#[test]
fn text_node_new_keeps_content_and_style() {
    let node = TextNode::new("code".to_string(), Some(Style::Code));
    assert_eq!(node.content, "code");
    assert_eq!(node.style, Some(Style::Code));
    assert_eq!(TextNode::from("plain"), TextNode::new("plain".into(), None));
    assert_eq!(TextNode::default(), TextNode::new(String::new(), None));
}

#[test]
fn push_text_node_reaches_the_innermost_last_leaf() {
    let mut node = blockquote(
        vec![
            p("first", 0..1),
            list(ListKind::Unordered, vec![item("a", 1..2), item("b", 2..3)], 1..3),
        ],
        0..3,
    );
    node.push_text_node(TextNode::new("!".into(), Some(Style::Code)));
    assert_eq!(
        node,
        blockquote(
            vec![
                p("first", 0..1),
                list(
                    ListKind::Unordered,
                    vec![
                        item("a", 1..2),
                        Node::new(
                            MarkdownNode::Item {
                                text: vec![
                                    TextNode::new("b".into(), None),
                                    TextNode::new("!".into(), Some(Style::Code))
                                ]
                                .into()
                            },
                            2..3
                        )
                    ],
                    1..3
                ),
            ],
            0..3,
        )
    );
    let mut empty = blockquote(vec![], 0..3);
    empty.push_text_node(TextNode::from("dropped"));
    assert_eq!(empty, blockquote(vec![], 0..3));
}

#[test]
fn heading_level_numbers_run_from_one_to_six() {
    let levels = [
        HeadingLevel::H1,
        HeadingLevel::H2,
        HeadingLevel::H3,
        HeadingLevel::H4,
        HeadingLevel::H5,
        HeadingLevel::H6,
    ];
    let numbers: Vec<u8> = levels.iter().map(|level| level.number()).collect();
    assert_eq!(numbers, vec![1, 2, 3, 4, 5, 6]);
}

#[test]
fn node_clone_is_equal_to_the_node() {
    let node = blockquote(vec![p("a", 1..2), list(ListKind::Ordered(2), vec![], 2..3)], 0..3);
    assert_eq!(node.clone(), node);
}

fn within(inner: &Range<usize>, outer: &Range<usize>) -> bool {
    outer.start <= inner.start && inner.end <= outer.end
}

fn nested(node: &Node) -> bool {
    match &node.markdown_node {
        MarkdownNode::BlockQuote { nodes, .. } | MarkdownNode::List { nodes, .. } => nodes
            .iter()
            .all(|child| within(&child.source_range, &node.source_range) && nested(child)),
        _ => true,
    }
}

fn runs(nodes: &[Node], out: &mut Vec<(String, Option<Style>)>) {
    for node in nodes {
        match &node.markdown_node {
            MarkdownNode::BlockQuote { nodes, .. } | MarkdownNode::List { nodes, .. } => {
                runs(nodes, out)
            }
            MarkdownNode::Heading { text, .. }
            | MarkdownNode::Paragraph { text }
            | MarkdownNode::CodeBlock { text, .. }
            | MarkdownNode::Item { text }
            | MarkdownNode::TaskListItem { text, .. } => {
                for run in &text.0 {
                    out.push((run.content.clone(), run.style));
                }
            }
        }
    }
}

const SAMPLE: &str = "# Title\n\nIntro with `code` and more.\n\n> Quote one\n>\n> > Inner quote\n>\n> - item a\n> - item b\n\n1. first\n2. second\n   - [x] nested done\n   - [ ] nested open\n\n```\nlet x = 1;\n```\n\nLast paragraph.\n";

#[test]
fn every_node_lies_within_the_node_that_holds_it() {
    let nodes = from_str(SAMPLE);
    assert!(!nodes.is_empty());
    assert!(nodes.iter().all(nested));
    let quote = from_str("> > > Deep Quote");
    assert!(quote.iter().all(nested));
}

#[test]
fn top_level_nodes_start_in_order_and_do_not_overlap() {
    let nodes = from_str(SAMPLE);
    assert!(nodes.len() >= 5);
    for pair in nodes.windows(2) {
        assert!(pair[0].source_range.start <= pair[0].source_range.end);
        assert!(pair[0].source_range.start <= pair[1].source_range.start);
        assert!(pair[0].source_range.end <= pair[1].source_range.start);
    }
}

#[test]
fn text_runs_of_the_tree_are_those_of_the_events() {
    let text = "# Title\n\nIntro with `code` and more.\n\n> Quote one\n\n- item a\n- [x] done\n";
    let expected: Vec<(String, Option<Style>)> = tokenize(text)
        .into_iter()
        .filter_map(|(token, _)| match token {
            Token::Text(content) => Some((content, None)),
            Token::Code(content) => Some((content, Some(Style::Code))),
            _ => None,
        })
        .collect();
    let mut found = Vec::new();
    runs(&from_str(text), &mut found);
    assert_eq!(found, expected);
    assert_eq!(
        found,
        vec![
            ("Title".to_string(), None),
            ("Intro with ".to_string(), None),
            ("code".to_string(), Some(Style::Code)),
            (" and more.".to_string(), None),
            ("Quote one".to_string(), None),
            ("item a".to_string(), None),
            ("done".to_string(), None),
        ]
    );
}

#[test]
fn item_with_marker_right_after_its_start_is_one_task_item() {
    let with_marker = events(vec![
        (Token::Start(Element::List(None)), 0..9),
        (Token::Start(Element::Item), 0..9),
        (Token::TaskListMarker(false), 2..5),
        (Token::Start(Element::Item), 9..12),
    ]);
    assert_eq!(
        with_marker,
        vec![list(
            ListKind::Unordered,
            vec![
                Node::new(
                    MarkdownNode::TaskListItem {
                        kind: TaskListItemKind::Unchecked,
                        text: Text::default()
                    },
                    0..9
                ),
                Node::new(MarkdownNode::Item { text: Text::default() }, 9..12)
            ],
            0..9
        )]
    );
}

#[test]
fn text_content_joins_the_runs() {
    let text: Text = vec![
        TextNode::new("You ".into(), None),
        TextNode::new("can".into(), Some(Style::Code)),
        TextNode::new("!".into(), None),
    ]
    .into();
    assert_eq!(text.content(), "You can!");
    assert_eq!(String::from(&text), "You can!");
    assert_eq!(text.len(), 3);
    assert_eq!(Text::default().content(), "");
    assert_eq!(text.clone(), text);
    let slice: &[TextNode] = &text.0;
    assert_eq!(Text::from(slice), text);
    assert_eq!(Text::from(TextNode::from("a")), Text::from("a".to_string()));
}

#[test]
fn a_tag_becomes_the_element_of_its_variant() {
    let level = Some(HeadingLevel::H3);
    let kind = Some(BlockQuoteKind::Tip);
    assert_eq!(element_of(TagParts::Paragraph, level, kind), Element::Paragraph);
    assert_eq!(
        element_of(TagParts::Heading, level, kind),
        Element::Heading { level: HeadingLevel::H3 }
    );
    assert_eq!(element_of(TagParts::Heading, None, kind), Element::Other);
    assert_eq!(element_of(TagParts::BlockQuote, level, kind), Element::BlockQuote(kind));
    assert_eq!(element_of(TagParts::BlockQuote, level, None), Element::BlockQuote(None));
    assert_eq!(element_of(TagParts::CodeBlock, level, kind), Element::CodeBlock);
    assert_eq!(element_of(TagParts::List(Some(4)), level, kind), Element::List(Some(4)));
    assert_eq!(element_of(TagParts::List(None), None, None), Element::List(None));
    assert_eq!(element_of(TagParts::Item, level, kind), Element::Item);
    assert_eq!(element_of(TagParts::Other, level, kind), Element::Other);
}
