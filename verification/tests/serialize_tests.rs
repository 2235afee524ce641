use jira::convert::markdown_to_adf;
use jira::doc::BlockNodeType;
use jira::doc::InlineNodeType;
use jira::doc::Mark;
use jira::doc::Node;
use jira::doc::SubsupType;
use jira::md::MdNode;
use jira::serialize::serialize;
use jira::serialize::JsonValue;

fn obj(entries: Vec<(&str, JsonValue)>) -> JsonValue {
    JsonValue::Obj(
        entries
            .into_iter()
            .map(|(k, v)| (k.to_owned(), v))
            .collect(),
    )
}

fn s(v: &str) -> JsonValue {
    JsonValue::Str(v.to_owned())
}

fn has_null(j: &JsonValue) -> bool {
    match j {
        JsonValue::Null => true,
        JsonValue::Bool(_) | JsonValue::Num(_) | JsonValue::Str(_) => false,
        JsonValue::Arr(v) => v.iter().any(has_null),
        JsonValue::Obj(v) => v.iter().any(|(_, x)| has_null(x)),
    }
}

fn keys(j: &JsonValue) -> Vec<String> {
    match j {
        JsonValue::Obj(v) => v.iter().map(|(k, _)| k.clone()).collect(),
        other => panic!("expected an object, got {:?}", other),
    }
}

#[test]
fn plain_paragraph_serialization() {
    let md = MdNode::Document {
        children: vec![MdNode::Paragraph {
            children: vec![MdNode::Text {
                literal: b"hello world".to_vec(),
            }],
        }],
    };
    let node = markdown_to_adf(&md).unwrap();
    let got = serialize(&node);
    let expected = obj(vec![
        ("version", JsonValue::Num(1)),
        ("type", s("doc")),
        (
            "content",
            JsonValue::Arr(vec![obj(vec![
                ("type", s("paragraph")),
                (
                    "content",
                    JsonValue::Arr(vec![obj(vec![
                        ("type", s("text")),
                        ("text", s("hello world")),
                    ])]),
                ),
            ])]),
        ),
    ]);
    assert_eq!(got, expected);
}

#[test]
fn absent_fields_are_omitted_not_null() {
    let hard_break = Node::InlineNode {
        nodetype: InlineNodeType::HardBreak,
        text: None,
        marks: None,
    };
    let j = serialize(&hard_break);
    assert!(!has_null(&j));
    assert_eq!(keys(&j), vec!["type".to_owned()]);

    let text_no_marks = Node::InlineNode {
        nodetype: InlineNodeType::Text,
        text: Some("x".to_owned()),
        marks: None,
    };
    let j = serialize(&text_no_marks);
    assert!(!has_null(&j));
    assert_eq!(keys(&j), vec!["type".to_owned(), "text".to_owned()]);
}

#[test]
fn empty_marks_are_omitted() {
    let n = Node::InlineNode {
        nodetype: InlineNodeType::Text,
        text: Some("x".to_owned()),
        marks: Some(vec![]),
    };
    let j = serialize(&n);
    assert!(!keys(&j).contains(&"marks".to_owned()));
}

#[test]
fn no_null_in_a_whole_converted_document() {
    let md = MdNode::Document {
        children: vec![
            MdNode::Heading {
                level: 3,
                children: vec![MdNode::Text {
                    literal: b"t".to_vec(),
                }],
            },
            MdNode::CodeBlock {
                info: vec![0xff],
                children: vec![],
            },
            MdNode::Paragraph {
                children: vec![MdNode::Link {
                    url: b"u".to_vec(),
                    title: b"".to_vec(),
                    children: vec![MdNode::Text {
                        literal: b"l".to_vec(),
                    }],
                }],
            },
        ],
    };
    let node = markdown_to_adf(&md).unwrap();
    assert!(!has_null(&serialize(&node)));
}

#[test]
fn code_block_without_language_serializes_empty_attrs() {
    let n = Node::BlockNode {
        nodetype: BlockNodeType::CodeBlock { language: None },
        content: vec![],
    };
    let got = serialize(&n);
    let expected = obj(vec![
        ("type", s("codeBlock")),
        ("attrs", JsonValue::Obj(vec![])),
        ("content", JsonValue::Arr(vec![])),
    ]);
    assert_eq!(got, expected);
}

#[test]
fn table_serializes_fixed_attrs() {
    let md = MdNode::Document {
        children: vec![MdNode::Table {
            children: vec![MdNode::TableRow {
                children: vec![MdNode::TableCell {
                    children: vec![MdNode::Paragraph {
                        children: vec![MdNode::Text {
                            literal: b"anything at all".to_vec(),
                        }],
                    }],
                }],
            }],
        }],
    };
    let node = markdown_to_adf(&md).unwrap();
    let j = serialize(&node);
    let content = match &j {
        JsonValue::Obj(entries) => match &entries[2].1 {
            JsonValue::Arr(v) => v,
            other => panic!("expected an array, got {:?}", other),
        },
        other => panic!("expected an object, got {:?}", other),
    };
    let table = match &content[0] {
        JsonValue::Obj(entries) => entries,
        other => panic!("expected an object, got {:?}", other),
    };
    assert_eq!(table[0], ("type".to_owned(), s("table")));
    assert_eq!(
        table[1],
        (
            "attrs".to_owned(),
            obj(vec![
                ("isNumberColumnEnabled", JsonValue::Bool(false)),
                ("layout", s("default")),
            ])
        )
    );
    let rows = match &table[2].1 {
        JsonValue::Arr(v) => v,
        other => panic!("expected an array, got {:?}", other),
    };
    let row = match &rows[0] {
        JsonValue::Obj(entries) => entries,
        other => panic!("expected an object, got {:?}", other),
    };
    let cells = match &row[1].1 {
        JsonValue::Arr(v) => v,
        other => panic!("expected an array, got {:?}", other),
    };
    let cell = match &cells[0] {
        JsonValue::Obj(entries) => entries,
        other => panic!("expected an object, got {:?}", other),
    };
    assert_eq!(cell[0], ("type".to_owned(), s("tableCell")));
    assert_eq!(
        cell[1],
        ("attrs".to_owned(), obj(vec![("background", s("#ffffff"))]))
    );
}

#[test]
fn marks_serialize_with_their_attrs() {
    let n = Node::InlineNode {
        nodetype: InlineNodeType::Text,
        text: Some("x".to_owned()),
        marks: Some(vec![
            Mark::Code,
            Mark::Link {
                href: "https://example.net".to_owned(),
                title: None,
            },
            Mark::Subsup {
                subsuptype: SubsupType::Sub,
            },
            Mark::TextColor {
                color: "#ff0000".to_owned(),
            },
        ]),
    };
    let got = serialize(&n);
    let expected = obj(vec![
        ("type", s("text")),
        ("text", s("x")),
        (
            "marks",
            JsonValue::Arr(vec![
                obj(vec![("type", s("code"))]),
                obj(vec![
                    ("type", s("link")),
                    ("attrs", obj(vec![("href", s("https://example.net"))])),
                ]),
                obj(vec![
                    ("type", s("subsup")),
                    ("attrs", obj(vec![("type", s("sub"))])),
                ]),
                obj(vec![
                    ("type", s("textColor")),
                    ("attrs", obj(vec![("color", s("#ff0000"))])),
                ]),
            ]),
        ),
    ]);
    assert_eq!(got, expected);
}

#[test]
fn mention_omits_absent_optional_attrs() {
    let n = Node::InlineNode {
        nodetype: InlineNodeType::Mention {
            id: "u1".to_owned(),
            text: None,
            user_type: Some("app".to_owned()),
        },
        text: None,
        marks: None,
    };
    let got = serialize(&n);
    let expected = obj(vec![
        ("type", s("mention")),
        (
            "attrs",
            obj(vec![("id", s("u1")), ("userType", s("app"))]),
        ),
    ]);
    assert_eq!(got, expected);
}

#[test]
fn heading_attrs_hold_the_level() {
    let n = Node::BlockNode {
        nodetype: BlockNodeType::Heading { level: 4 },
        content: vec![],
    };
    let got = serialize(&n);
    let expected = obj(vec![
        ("type", s("heading")),
        ("attrs", obj(vec![("level", JsonValue::Num(4))])),
        ("content", JsonValue::Arr(vec![])),
    ]);
    assert_eq!(got, expected);
}
