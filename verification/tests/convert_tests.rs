use jira::convert::markdown_to_adf;
use jira::convert::ConversionError;
use jira::doc::BlockNodeType;
use jira::doc::InlineNodeType;
use jira::doc::Mark;
use jira::doc::Node;
use jira::doc::SubsupType;
use jira::doc::TableLayout;
use jira::md::MdNode;

fn text(bytes: &[u8]) -> MdNode {
    MdNode::Text { literal: bytes.to_vec() }
}

fn paragraph(children: Vec<MdNode>) -> MdNode {
    MdNode::Paragraph { children }
}

fn document(children: Vec<MdNode>) -> MdNode {
    MdNode::Document { children }
}

fn leaf(text: &str, marks: Option<Vec<Mark>>) -> Node {
    Node::InlineNode {
        nodetype: InlineNodeType::Text,
        text: Some(text.to_owned()),
        marks,
    }
}

#[test]
fn plain_paragraph_roundtrip() {
    let md = document(vec![paragraph(vec![text(b"hello world")])]);
    let got = markdown_to_adf(&md).unwrap();
    let expected = Node::Root {
        version: 1,
        doctype: "doc".to_owned(),
        content: vec![Node::BlockNode {
            nodetype: BlockNodeType::Paragraph,
            content: vec![leaf("hello world", None)],
        }],
    };
    assert_eq!(got, expected);
}

#[test]
fn heading_levels_copied() {
    for level in 1..=6u32 {
        let md = document(vec![MdNode::Heading {
            level,
            children: vec![text(b"Title")],
        }]);
        let got = markdown_to_adf(&md).unwrap();
        match got {
            Node::Root { content, .. } => match &content[0] {
                Node::BlockNode {
                    nodetype: BlockNodeType::Heading { level: got_level },
                    ..
                } => assert_eq!(*got_level, level),
                other => panic!("expected a heading, got {:?}", other),
            },
            other => panic!("expected a root, got {:?}", other),
        }
    }
}

#[test]
fn strong_text_gets_strong_mark() {
    let md = document(vec![paragraph(vec![MdNode::Strong {
        children: vec![text(b"bold")],
    }])]);
    let got = markdown_to_adf(&md).unwrap();
    let expected = Node::Root {
        version: 1,
        doctype: "doc".to_owned(),
        content: vec![Node::BlockNode {
            nodetype: BlockNodeType::Paragraph,
            content: vec![leaf("bold", Some(vec![Mark::Strong]))],
        }],
    };
    assert_eq!(got, expected);
}

#[test]
fn inline_code_gets_code_mark() {
    let md = document(vec![paragraph(vec![MdNode::Code {
        literal: b"code".to_vec(),
    }])]);
    let got = markdown_to_adf(&md).unwrap();
    let expected = Node::Root {
        version: 1,
        doctype: "doc".to_owned(),
        content: vec![Node::BlockNode {
            nodetype: BlockNodeType::Paragraph,
            content: vec![leaf("code", Some(vec![Mark::Code]))],
        }],
    };
    assert_eq!(got, expected);
}

#[test]
fn nested_strong_em_orders_marks_outer_first() {
    let md = document(vec![paragraph(vec![MdNode::Strong {
        children: vec![MdNode::Emph {
            children: vec![text(b"x")],
        }],
    }])]);
    let got = markdown_to_adf(&md).unwrap();
    let expected = Node::Root {
        version: 1,
        doctype: "doc".to_owned(),
        content: vec![Node::BlockNode {
            nodetype: BlockNodeType::Paragraph,
            content: vec![leaf("x", Some(vec![Mark::Strong, Mark::Em]))],
        }],
    };
    assert_eq!(got, expected);
}

#[test]
fn image_is_rejected_whole() {
    let md = document(vec![
        paragraph(vec![text(b"before")]),
        paragraph(vec![MdNode::Image]),
    ]);
    let got = markdown_to_adf(&md);
    assert_eq!(
        got,
        Err(ConversionError::UnsupportedFeature("image".to_owned()))
    );
}

#[test]
fn description_list_is_rejected() {
    let md = document(vec![MdNode::DescriptionList]);
    assert_eq!(
        markdown_to_adf(&md),
        Err(ConversionError::UnsupportedFeature(
            "description list".to_owned()
        ))
    );
}

#[test]
fn empty_emphasis_is_structural_error() {
    let md = document(vec![paragraph(vec![MdNode::Emph { children: vec![] }])]);
    assert_eq!(markdown_to_adf(&md), Err(ConversionError::StructuralError));
}

#[test]
fn invalid_text_bytes_are_rejected() {
    let md = document(vec![paragraph(vec![text(&[0xff, 0xfe])])]);
    assert_eq!(markdown_to_adf(&md), Err(ConversionError::InvalidText));
}

#[test]
fn non_ascii_text_is_decoded() {
    let md = document(vec![paragraph(vec![text("héllo — wörld".as_bytes())])]);
    let got = markdown_to_adf(&md).unwrap();
    let expected = Node::Root {
        version: 1,
        doctype: "doc".to_owned(),
        content: vec![Node::BlockNode {
            nodetype: BlockNodeType::Paragraph,
            content: vec![leaf("héllo — wörld", None)],
        }],
    };
    assert_eq!(got, expected);
}

#[test]
fn converting_twice_gives_identical_trees() {
    let build = || {
        document(vec![
            MdNode::Heading {
                level: 2,
                children: vec![text(b"t")],
            },
            paragraph(vec![
                MdNode::Emph {
                    children: vec![text(b"a")],
                },
                MdNode::SoftBreak,
                text(b"b"),
            ]),
        ])
    };
    let first = markdown_to_adf(&build());
    let second = markdown_to_adf(&build());
    assert_eq!(first, second);
}

#[test]
fn soft_break_becomes_plain_space() {
    let md = document(vec![paragraph(vec![
        text(b"a"),
        MdNode::SoftBreak,
        text(b"b"),
    ])]);
    let got = markdown_to_adf(&md).unwrap();
    let expected = Node::Root {
        version: 1,
        doctype: "doc".to_owned(),
        content: vec![Node::BlockNode {
            nodetype: BlockNodeType::Paragraph,
            content: vec![leaf("a", None), leaf(" ", None), leaf("b", None)],
        }],
    };
    assert_eq!(got, expected);
}

#[test]
fn line_break_becomes_hard_break() {
    let md = document(vec![paragraph(vec![MdNode::LineBreak])]);
    let got = markdown_to_adf(&md).unwrap();
    let expected = Node::Root {
        version: 1,
        doctype: "doc".to_owned(),
        content: vec![Node::BlockNode {
            nodetype: BlockNodeType::Paragraph,
            content: vec![Node::InlineNode {
                nodetype: InlineNodeType::HardBreak,
                text: None,
                marks: None,
            }],
        }],
    };
    assert_eq!(got, expected);
}

#[test]
fn link_title_defaults_to_empty_string() {
    let md = document(vec![paragraph(vec![MdNode::Link {
        url: b"https://example.net".to_vec(),
        title: b"".to_vec(),
        children: vec![text(b"here")],
    }])]);
    let got = markdown_to_adf(&md).unwrap();
    let expected = Node::Root {
        version: 1,
        doctype: "doc".to_owned(),
        content: vec![Node::BlockNode {
            nodetype: BlockNodeType::Paragraph,
            content: vec![leaf(
                "here",
                Some(vec![Mark::Link {
                    href: "https://example.net".to_owned(),
                    title: Some("".to_owned()),
                }]),
            )],
        }],
    };
    assert_eq!(got, expected);
}

#[test]
fn superscript_becomes_subsup_mark() {
    let md = document(vec![paragraph(vec![MdNode::Superscript {
        children: vec![text(b"2")],
    }])]);
    let got = markdown_to_adf(&md).unwrap();
    let expected = Node::Root {
        version: 1,
        doctype: "doc".to_owned(),
        content: vec![Node::BlockNode {
            nodetype: BlockNodeType::Paragraph,
            content: vec![leaf(
                "2",
                Some(vec![Mark::Subsup {
                    subsuptype: SubsupType::Sup,
                }]),
            )],
        }],
    };
    assert_eq!(got, expected);
}

#[test]
fn code_block_keeps_whole_info_string() {
    let md = document(vec![MdNode::CodeBlock {
        info: b"rust,ignore extra".to_vec(),
        children: vec![text(b"let x = 1;")],
    }]);
    let got = markdown_to_adf(&md).unwrap();
    match got {
        Node::Root { content, .. } => match &content[0] {
            Node::BlockNode {
                nodetype: BlockNodeType::CodeBlock { language },
                ..
            } => assert_eq!(language.as_deref(), Some("rust,ignore extra")),
            other => panic!("expected a code block, got {:?}", other),
        },
        other => panic!("expected a root, got {:?}", other),
    }
}

#[test]
fn code_block_invalid_info_drops_language() {
    let md = document(vec![MdNode::CodeBlock {
        info: vec![0xff],
        children: vec![],
    }]);
    let got = markdown_to_adf(&md).unwrap();
    match got {
        Node::Root { content, .. } => match &content[0] {
            Node::BlockNode {
                nodetype: BlockNodeType::CodeBlock { language },
                ..
            } => assert_eq!(language, &None),
            other => panic!("expected a code block, got {:?}", other),
        },
        other => panic!("expected a root, got {:?}", other),
    }
}

#[test]
fn table_attrs_are_fixed_whatever_the_table_holds() {
    let md = document(vec![MdNode::Table {
        children: vec![MdNode::TableRow {
            children: vec![MdNode::TableCell {
                children: vec![paragraph(vec![text(b"42")])],
            }],
        }],
    }]);
    let got = markdown_to_adf(&md).unwrap();
    match got {
        Node::Root { content, .. } => match &content[0] {
            Node::BlockNode {
                nodetype:
                    BlockNodeType::Table {
                        is_number_column_enabled,
                        layout,
                    },
                content: rows,
            } => {
                assert_eq!(*is_number_column_enabled, false);
                assert_eq!(*layout, TableLayout::Default);
                match &rows[0] {
                    Node::BlockNode {
                        nodetype: BlockNodeType::TableRow,
                        content: cells,
                    } => match &cells[0] {
                        Node::BlockNode {
                            nodetype: BlockNodeType::TableCell { background },
                            ..
                        } => assert_eq!(background, "#ffffff"),
                        other => panic!("expected a cell, got {:?}", other),
                    },
                    other => panic!("expected a row, got {:?}", other),
                }
            }
            other => panic!("expected a table, got {:?}", other),
        },
        other => panic!("expected a root, got {:?}", other),
    }
}

#[test]
fn ordered_and_bullet_lists_are_distinguished() {
    let md = document(vec![
        MdNode::List {
            ordered: true,
            children: vec![MdNode::Item {
                children: vec![paragraph(vec![text(b"a")])],
            }],
        },
        MdNode::List {
            ordered: false,
            children: vec![MdNode::Item {
                children: vec![paragraph(vec![text(b"b")])],
            }],
        },
    ]);
    let got = markdown_to_adf(&md).unwrap();
    match got {
        Node::Root { content, .. } => {
            assert!(matches!(
                content[0],
                Node::BlockNode {
                    nodetype: BlockNodeType::OrderedList,
                    ..
                }
            ));
            assert!(matches!(
                content[1],
                Node::BlockNode {
                    nodetype: BlockNodeType::BulletList,
                    ..
                }
            ));
        }
        other => panic!("expected a root, got {:?}", other),
    }
}

#[test]
fn thematic_break_becomes_empty_rule() {
    let md = document(vec![MdNode::ThematicBreak]);
    let got = markdown_to_adf(&md).unwrap();
    let expected = Node::Root {
        version: 1,
        doctype: "doc".to_owned(),
        content: vec![Node::BlockNode {
            nodetype: BlockNodeType::Rule,
            content: vec![],
        }],
    };
    assert_eq!(got, expected);
}

#[test]
fn append_starts_or_extends_the_list() {
    assert_eq!(jira::convert::append(None, 1), vec![1]);
    assert_eq!(jira::convert::append(Some(vec![1, 2]), 3), vec![1, 2, 3]);
}
