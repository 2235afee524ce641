//! Serialization of the rich-document tree into its wire JSON schema.
//!
//! The mapping is purely structural: every node becomes an object with a
//! `type` tag, kind-specific attributes under `attrs` (present only when
//! the kind carries fields), children under `content`, and inline text
//! and marks under `text` and `marks`.  Optional fields that are absent
//! are omitted from the output, never written as `null`.

use vstd::prelude::*;

use crate::doc::BlockTypeView;
use crate::doc::InlineTypeView;
use crate::doc::Mark;
use crate::doc::MarkView;
use crate::doc::Node;
use crate::doc::NodeView;
use crate::doc::SubsupType;
use crate::doc::TableLayout;
use crate::doc::mark_view;
use crate::doc::marks_view;
use crate::doc::node_view;
use crate::doc::nodes_view;
use crate::doc::lemma_nodes_view_push;

verus! {

/// A JSON value: the wire form a document is serialized into.
#[derive(Debug, PartialEq, Eq)]
pub enum JsonValue {
    Null,
    Bool(bool),
    Num(u64),
    Str(String),
    Arr(Vec<JsonValue>),
    Obj(Vec<(String, JsonValue)>),
}

/// Ghost view of a `JsonValue`.
pub enum JsonView {
    Null,
    Bool(bool),
    Num(u64),
    Str(Seq<char>),
    Arr(Seq<JsonView>),
    Obj(Seq<(Seq<char>, JsonView)>),
}

pub open spec fn json_view(j: JsonValue) -> JsonView
    decreases j,
{
    match j {
        JsonValue::Null => JsonView::Null,
        JsonValue::Bool(b) => JsonView::Bool(b),
        JsonValue::Num(n) => JsonView::Num(n),
        JsonValue::Str(s) => JsonView::Str(s@),
        JsonValue::Arr(v) => JsonView::Arr(jsons_view(v@)),
        JsonValue::Obj(v) => JsonView::Obj(jobj_view(v@)),
    }
}

pub open spec fn jsons_view(s: Seq<JsonValue>) -> Seq<JsonView>
    decreases s,
{
    if s.len() == 0 {
        Seq::empty()
    } else {
        seq![json_view(s[0])] + jsons_view(s.drop_first())
    }
}

pub open spec fn jobj_view(s: Seq<(String, JsonValue)>) -> Seq<(Seq<char>, JsonView)>
    decreases s,
{
    if s.len() == 0 {
        Seq::empty()
    } else {
        seq![(s[0].0@, json_view(s[0].1))] + jobj_view(s.drop_first())
    }
}

proof fn lemma_jsons_view_push(s: Seq<JsonValue>, x: JsonValue)
    ensures
        jsons_view(s.push(x)) == jsons_view(s).push(json_view(x)),
    decreases s,
{
    if s.len() == 0 {
        assert(s.push(x).drop_first() =~= s);
        assert(jsons_view(s.push(x)) =~= jsons_view(s).push(json_view(x)));
    } else {
        assert(s.push(x).drop_first() =~= s.drop_first().push(x));
        lemma_jsons_view_push(s.drop_first(), x);
        assert(jsons_view(s.push(x)) =~= jsons_view(s).push(json_view(x)));
    }
}

proof fn lemma_jobj_view_push(s: Seq<(String, JsonValue)>, k: String, v: JsonValue)
    ensures
        jobj_view(s.push((k, v))) == jobj_view(s).push((k@, json_view(v))),
    decreases s,
{
    if s.len() == 0 {
        assert(s.push((k, v)).drop_first() =~= s);
        assert(jobj_view(s.push((k, v))) =~= jobj_view(s).push((k@, json_view(v))));
    } else {
        assert(s.push((k, v)).drop_first() =~= s.drop_first().push((k, v)));
        lemma_jobj_view_push(s.drop_first(), k, v);
        assert(jobj_view(s.push((k, v))) =~= jobj_view(s).push((k@, json_view(v))));
    }
}

/// The wire name of a table layout.
pub open spec fn layout_name(l: TableLayout) -> Seq<char> {
    match l {
        TableLayout::Default => "default"@,
        TableLayout::FullWidth => "full-width"@,
        TableLayout::Wide => "wide"@,
    }
}

pub open spec fn subsup_name(t: SubsupType) -> Seq<char> {
    match t {
        SubsupType::Sup => "sup"@,
        SubsupType::Sub => "sub"@,
    }
}

/// The wire `type` tag of a block node.
pub open spec fn block_type_name(t: BlockTypeView) -> Seq<char> {
    match t {
        BlockTypeView::BlockQuote => "blockQuote"@,
        BlockTypeView::BulletList => "bulletList"@,
        BlockTypeView::CodeBlock { .. } => "codeBlock"@,
        BlockTypeView::Heading { .. } => "heading"@,
        BlockTypeView::MediaGroup => "mediaGroup"@,
        BlockTypeView::MediaSingle => "mediaSingle"@,
        BlockTypeView::OrderedList => "orderedList"@,
        BlockTypeView::Panel => "panel"@,
        BlockTypeView::Paragraph => "paragraph"@,
        BlockTypeView::Rule => "rule"@,
        BlockTypeView::Table { .. } => "table"@,
        BlockTypeView::ListItem => "listItem"@,
        BlockTypeView::Media => "media"@,
        BlockTypeView::TableCell { .. } => "tableCell"@,
        BlockTypeView::TableHeader => "tableHeader"@,
        BlockTypeView::TableRow => "tableRow"@,
    }
}

/// The wire `type` tag of an inline node.
pub open spec fn inline_type_name(t: InlineTypeView) -> Seq<char> {
    match t {
        InlineTypeView::Emoji { .. } => "emoji"@,
        InlineTypeView::HardBreak => "hardBreak"@,
        InlineTypeView::InlineCard { .. } => "inlineCard"@,
        InlineTypeView::Mention { .. } => "mention"@,
        InlineTypeView::Text => "text"@,
    }
}

/// A `key: string` entry when the string is present, nothing when it is
/// absent.
pub open spec fn opt_entry(k: Seq<char>, v: Option<Seq<char>>) -> Seq<(Seq<char>, JsonView)> {
    match v {
        Some(s) => seq![(k, JsonView::Str(s))],
        None => Seq::empty(),
    }
}

/// The `attrs` object of a block node, for the kinds that carry fields.
pub open spec fn block_attrs(t: BlockTypeView) -> Option<JsonView> {
    match t {
        BlockTypeView::CodeBlock { language } => Some(
            JsonView::Obj(opt_entry("language"@, language)),
        ),
        BlockTypeView::Heading { level } => Some(
            JsonView::Obj(seq![("level"@, JsonView::Num(level as u64))]),
        ),
        BlockTypeView::Table { is_number_column_enabled, layout } => Some(
            JsonView::Obj(
                seq![
                    ("isNumberColumnEnabled"@, JsonView::Bool(is_number_column_enabled)),
                    ("layout"@, JsonView::Str(layout_name(layout))),
                ],
            ),
        ),
        BlockTypeView::TableCell { background } => Some(
            JsonView::Obj(seq![("background"@, JsonView::Str(background))]),
        ),
        _ => None,
    }
}

/// The `attrs` object of an inline node, for the kinds that carry
/// fields.
pub open spec fn inline_attrs(t: InlineTypeView) -> Option<JsonView> {
    match t {
        InlineTypeView::Emoji { id, short_name, text } => Some(
            JsonView::Obj(
                opt_entry("id"@, id) + seq![("shortName"@, JsonView::Str(short_name))]
                    + opt_entry("text"@, text),
            ),
        ),
        InlineTypeView::InlineCard { url } => Some(
            JsonView::Obj(seq![("url"@, JsonView::Str(url))]),
        ),
        InlineTypeView::Mention { id, text, user_type } => Some(
            JsonView::Obj(
                seq![("id"@, JsonView::Str(id))] + opt_entry("text"@, text) + opt_entry(
                    "userType"@,
                    user_type,
                ),
            ),
        ),
        InlineTypeView::HardBreak => None,
        InlineTypeView::Text => None,
    }
}

/// The serialization of one inline formatting mark.
pub open spec fn json_of_mark(m: MarkView) -> JsonView {
    match m {
        MarkView::Code => JsonView::Obj(seq![("type"@, JsonView::Str("code"@))]),
        MarkView::Em => JsonView::Obj(seq![("type"@, JsonView::Str("em"@))]),
        MarkView::Link { href, title } => JsonView::Obj(
            seq![
                ("type"@, JsonView::Str("link"@)),
                (
                    "attrs"@,
                    JsonView::Obj(
                        seq![("href"@, JsonView::Str(href))] + opt_entry("title"@, title),
                    ),
                ),
            ],
        ),
        MarkView::Strike => JsonView::Obj(seq![("type"@, JsonView::Str("strike"@))]),
        MarkView::Strong => JsonView::Obj(seq![("type"@, JsonView::Str("strong"@))]),
        MarkView::Subsup { subsuptype } => JsonView::Obj(
            seq![
                ("type"@, JsonView::Str("subsup"@)),
                ("attrs"@, JsonView::Obj(seq![("type"@, JsonView::Str(subsup_name(subsuptype)))])),
            ],
        ),
        MarkView::TextColor { color } => JsonView::Obj(
            seq![
                ("type"@, JsonView::Str("textColor"@)),
                ("attrs"@, JsonView::Obj(seq![("color"@, JsonView::Str(color))])),
            ],
        ),
        MarkView::Underline => JsonView::Obj(seq![("type"@, JsonView::Str("underline"@))]),
    }
}

pub open spec fn json_of_marks(ms: Seq<MarkView>) -> Seq<JsonView> {
    Seq::new(ms.len(), |i: int| json_of_mark(ms[i]))
}

/// The `marks` entry of an inline node: present only when marks are
/// present and non-empty.
pub open spec fn marks_entry(marks: Option<Seq<MarkView>>) -> Seq<(Seq<char>, JsonView)> {
    match marks {
        Some(ms) => if ms.len() > 0 {
            seq![("marks"@, JsonView::Arr(json_of_marks(ms)))]
        } else {
            Seq::empty()
        },
        None => Seq::empty(),
    }
}

/// The `attrs` entry of a node, when its kind carries fields.
pub open spec fn attrs_entry(attrs: Option<JsonView>) -> Seq<(Seq<char>, JsonView)> {
    match attrs {
        Some(a) => seq![("attrs"@, a)],
        None => Seq::empty(),
    }
}

/// What serializing one node yields: the full functional specification
/// of the serializer.
pub open spec fn json_of_node(t: NodeView) -> JsonView
    decreases t,
{
    match t {
        NodeView::Root { version, doctype, content } => JsonView::Obj(
            seq![
                ("version"@, JsonView::Num(version as u64)),
                ("type"@, JsonView::Str(doctype)),
                ("content"@, JsonView::Arr(json_of_nodes(content))),
            ],
        ),
        NodeView::BlockNode { nodetype, content } => JsonView::Obj(
            seq![("type"@, JsonView::Str(block_type_name(nodetype)))] + attrs_entry(
                block_attrs(nodetype),
            ) + seq![("content"@, JsonView::Arr(json_of_nodes(content)))],
        ),
        NodeView::InlineNode { nodetype, text, marks } => JsonView::Obj(
            seq![("type"@, JsonView::Str(inline_type_name(nodetype)))] + attrs_entry(
                inline_attrs(nodetype),
            ) + opt_entry("text"@, text) + marks_entry(marks),
        ),
    }
}

pub open spec fn json_of_nodes(s: Seq<NodeView>) -> Seq<JsonView>
    decreases s,
{
    if s.len() == 0 {
        Seq::empty()
    } else {
        seq![json_of_node(s[0])] + json_of_nodes(s.drop_first())
    }
}

proof fn lemma_json_of_nodes_push(s: Seq<NodeView>, x: NodeView)
    ensures
        json_of_nodes(s.push(x)) == json_of_nodes(s).push(json_of_node(x)),
    decreases s,
{
    if s.len() == 0 {
        assert(s.push(x).drop_first() =~= s);
        assert(json_of_nodes(s.push(x)) =~= json_of_nodes(s).push(json_of_node(x)));
    } else {
        assert(s.push(x).drop_first() =~= s.drop_first().push(x));
        lemma_json_of_nodes_push(s.drop_first(), x);
        assert(json_of_nodes(s.push(x)) =~= json_of_nodes(s).push(json_of_node(x)));
    }
}

/// Appends a `key: value` entry to an object under construction.
fn push_entry(entries: &mut Vec<(String, JsonValue)>, k: &str, v: JsonValue)
    ensures
        jobj_view(final(entries)@) == jobj_view(old(entries)@).push((k@, json_view(v))),
{
    let key = String::from_str(k);
    proof {
        lemma_jobj_view_push(entries@, key, v);
    }
    entries.push((key, v));
}

fn serialize_mark(m: &Mark) -> (j: JsonValue)
    ensures
        json_view(j) == json_of_mark(mark_view(*m)),
{
    match m {
        Mark::Code => {
            let mut entries: Vec<(String, JsonValue)> = Vec::new();
            push_entry(&mut entries, "type", JsonValue::Str(String::from_str("code")));
            proof {
                assert(jobj_view(entries@) =~= seq![("type"@, JsonView::Str("code"@))]);
            }
            JsonValue::Obj(entries)
        },
        Mark::Em => {
            let mut entries: Vec<(String, JsonValue)> = Vec::new();
            push_entry(&mut entries, "type", JsonValue::Str(String::from_str("em")));
            proof {
                assert(jobj_view(entries@) =~= seq![("type"@, JsonView::Str("em"@))]);
            }
            JsonValue::Obj(entries)
        },
        Mark::Link { href, title } => {
            let mut attrs: Vec<(String, JsonValue)> = Vec::new();
            push_entry(&mut attrs, "href", JsonValue::Str(href.clone()));
            match title {
                Some(t) => {
                    push_entry(&mut attrs, "title", JsonValue::Str(t.clone()));
                },
                None => {},
            }
            proof {
                assert(jobj_view(attrs@) =~= seq![("href"@, JsonView::Str(href@))] + opt_entry(
                    "title"@,
                    crate::doc::opt_string_view(*title),
                ));
            }
            let mut entries: Vec<(String, JsonValue)> = Vec::new();
            push_entry(&mut entries, "type", JsonValue::Str(String::from_str("link")));
            push_entry(&mut entries, "attrs", JsonValue::Obj(attrs));
            proof {
                assert(jobj_view(entries@) =~= seq![
                    ("type"@, JsonView::Str("link"@)),
                    (
                        "attrs"@,
                        JsonView::Obj(
                            seq![("href"@, JsonView::Str(href@))] + opt_entry(
                                "title"@,
                                crate::doc::opt_string_view(*title),
                            ),
                        ),
                    ),
                ]);
            }
            JsonValue::Obj(entries)
        },
        Mark::Strike => {
            let mut entries: Vec<(String, JsonValue)> = Vec::new();
            push_entry(&mut entries, "type", JsonValue::Str(String::from_str("strike")));
            proof {
                assert(jobj_view(entries@) =~= seq![("type"@, JsonView::Str("strike"@))]);
            }
            JsonValue::Obj(entries)
        },
        Mark::Strong => {
            let mut entries: Vec<(String, JsonValue)> = Vec::new();
            push_entry(&mut entries, "type", JsonValue::Str(String::from_str("strong")));
            proof {
                assert(jobj_view(entries@) =~= seq![("type"@, JsonView::Str("strong"@))]);
            }
            JsonValue::Obj(entries)
        },
        Mark::Subsup { subsuptype } => {
            let mut attrs: Vec<(String, JsonValue)> = Vec::new();
            let name = match subsuptype {
                SubsupType::Sup => String::from_str("sup"),
                SubsupType::Sub => String::from_str("sub"),
            };
            push_entry(&mut attrs, "type", JsonValue::Str(name));
            proof {
                assert(jobj_view(attrs@) =~= seq![
                    ("type"@, JsonView::Str(subsup_name(*subsuptype))),
                ]);
            }
            let mut entries: Vec<(String, JsonValue)> = Vec::new();
            push_entry(&mut entries, "type", JsonValue::Str(String::from_str("subsup")));
            push_entry(&mut entries, "attrs", JsonValue::Obj(attrs));
            proof {
                assert(jobj_view(entries@) =~= seq![
                    ("type"@, JsonView::Str("subsup"@)),
                    (
                        "attrs"@,
                        JsonView::Obj(seq![("type"@, JsonView::Str(subsup_name(*subsuptype)))]),
                    ),
                ]);
            }
            JsonValue::Obj(entries)
        },
        Mark::TextColor { color } => {
            let mut attrs: Vec<(String, JsonValue)> = Vec::new();
            push_entry(&mut attrs, "color", JsonValue::Str(color.clone()));
            proof {
                assert(jobj_view(attrs@) =~= seq![("color"@, JsonView::Str(color@))]);
            }
            let mut entries: Vec<(String, JsonValue)> = Vec::new();
            push_entry(&mut entries, "type", JsonValue::Str(String::from_str("textColor")));
            push_entry(&mut entries, "attrs", JsonValue::Obj(attrs));
            proof {
                assert(jobj_view(entries@) =~= seq![
                    ("type"@, JsonView::Str("textColor"@)),
                    ("attrs"@, JsonView::Obj(seq![("color"@, JsonView::Str(color@))])),
                ]);
            }
            JsonValue::Obj(entries)
        },
        Mark::Underline => {
            let mut entries: Vec<(String, JsonValue)> = Vec::new();
            push_entry(&mut entries, "type", JsonValue::Str(String::from_str("underline")));
            proof {
                assert(jobj_view(entries@) =~= seq![("type"@, JsonView::Str("underline"@))]);
            }
            JsonValue::Obj(entries)
        },
    }
}

fn serialize_marks(ms: &Vec<Mark>) -> (r: Vec<JsonValue>)
    ensures
        jsons_view(r@) == json_of_marks(marks_view(ms@)),
{
    let mut out: Vec<JsonValue> = Vec::new();
    let mut i: usize = 0;
    while i < ms.len()
        invariant
            i <= ms@.len(),
            jsons_view(out@) == json_of_marks(marks_view(ms@.take(i as int))),
        decreases ms@.len() - i,
    {
        let j = serialize_mark(&ms[i]);
        proof {
            lemma_jsons_view_push(out@, j);
            assert(json_of_marks(marks_view(ms@.take(i as int + 1))) =~= json_of_marks(
                marks_view(ms@.take(i as int)),
            ).push(json_of_mark(mark_view(ms@[i as int]))));
        }
        out.push(j);
        i += 1;
    }
    proof {
        assert(ms@.take(ms@.len() as int) =~= ms@);
    }
    out
}

fn serialize_nodes(v: &Vec<Node>) -> (r: Vec<JsonValue>)
    ensures
        jsons_view(r@) == json_of_nodes(nodes_view(v@)),
    decreases v@,
{
    let mut out: Vec<JsonValue> = Vec::new();
    let mut i: usize = 0;
    proof {
        assert(v@.take(0) =~= Seq::<Node>::empty());
    }
    while i < v.len()
        invariant
            i <= v@.len(),
            jsons_view(out@) == json_of_nodes(nodes_view(v@.take(i as int))),
        decreases v@.len() - i,
    {
        let j = serialize(&v[i]);
        proof {
            lemma_jsons_view_push(out@, j);
            lemma_nodes_view_push(v@.take(i as int), v@[i as int]);
            assert(v@.take(i as int).push(v@[i as int]) =~= v@.take(i as int + 1));
            lemma_json_of_nodes_push(nodes_view(v@.take(i as int)), node_view(v@[i as int]));
        }
        out.push(j);
        i += 1;
    }
    proof {
        assert(v@.take(v@.len() as int) =~= v@);
    }
    out
}

/// Serializes one node of the rich-document tree into its wire JSON
/// value.  The result is exactly what `json_of_node` specifies.
pub fn serialize(n: &Node) -> (j: JsonValue)
    ensures
        json_view(j) == json_of_node(node_view(*n)),
    decreases *n,
{
    match n {
        Node::Root { version, doctype, content } => {
            let mut entries: Vec<(String, JsonValue)> = Vec::new();
            push_entry(&mut entries, "version", JsonValue::Num(*version as u64));
            push_entry(&mut entries, "type", JsonValue::Str(doctype.clone()));
            let cs = serialize_nodes(content);
            push_entry(&mut entries, "content", JsonValue::Arr(cs));
            proof {
                assert(jobj_view(entries@) =~= seq![
                    ("version"@, JsonView::Num(*version as u64)),
                    ("type"@, JsonView::Str(doctype@)),
                    ("content"@, JsonView::Arr(json_of_nodes(nodes_view(content@)))),
                ]);
            }
            JsonValue::Obj(entries)
        },
        Node::BlockNode { nodetype, content } => {
            let mut entries: Vec<(String, JsonValue)> = Vec::new();
            let tag = block_type_name_exec(nodetype);
            push_entry(&mut entries, "type", JsonValue::Str(tag));
            let ghost after_type = jobj_view(entries@);
            match block_attrs_exec(nodetype) {
                Some(a) => {
                    push_entry(&mut entries, "attrs", a);
                },
                None => {},
            }
            let ghost after_attrs = jobj_view(entries@);
            let cs = serialize_nodes(content);
            push_entry(&mut entries, "content", JsonValue::Arr(cs));
            proof {
                let tv = crate::doc::block_type_view(*nodetype);
                assert(after_type =~= seq![("type"@, JsonView::Str(block_type_name(tv)))]);
                assert(after_attrs =~= after_type + attrs_entry(block_attrs(tv)));
                assert(jobj_view(entries@) =~= seq![
                    ("type"@, JsonView::Str(block_type_name(tv))),
                ] + attrs_entry(block_attrs(tv)) + seq![
                    ("content"@, JsonView::Arr(json_of_nodes(nodes_view(content@)))),
                ]);
            }
            JsonValue::Obj(entries)
        },
        Node::InlineNode { nodetype, text, marks } => {
            let mut entries: Vec<(String, JsonValue)> = Vec::new();
            let tag = inline_type_name_exec(nodetype);
            push_entry(&mut entries, "type", JsonValue::Str(tag));
            let ghost after_type = jobj_view(entries@);
            match inline_attrs_exec(nodetype) {
                Some(a) => {
                    push_entry(&mut entries, "attrs", a);
                },
                None => {},
            }
            let ghost after_attrs = jobj_view(entries@);
            match text {
                Some(t) => {
                    push_entry(&mut entries, "text", JsonValue::Str(t.clone()));
                },
                None => {},
            }
            let ghost after_text = jobj_view(entries@);
            match marks {
                Some(ms) => {
                    if ms.len() > 0 {
                        let jms = serialize_marks(ms);
                        push_entry(&mut entries, "marks", JsonValue::Arr(jms));
                    }
                },
                None => {},
            }
            proof {
                let tv = crate::doc::inline_type_view(*nodetype);
                let textv = crate::doc::opt_string_view(*text);
                let marksv = match marks {
                    Some(v) => Some(marks_view(v@)),
                    None => None,
                };
                assert(after_type =~= seq![("type"@, JsonView::Str(inline_type_name(tv)))]);
                assert(after_attrs =~= after_type + attrs_entry(inline_attrs(tv)));
                assert(after_text =~= after_attrs + opt_entry("text"@, textv));
                assert(jobj_view(entries@) =~= after_text + marks_entry(marksv));
                assert(jobj_view(entries@) =~= seq![
                    ("type"@, JsonView::Str(inline_type_name(tv))),
                ] + attrs_entry(inline_attrs(tv)) + opt_entry("text"@, textv) + marks_entry(
                    marksv,
                ));
            }
            JsonValue::Obj(entries)
        },
    }
}

/// No `null` occurs anywhere in the JSON value.
pub open spec fn json_no_null(j: JsonView) -> bool
    decreases j,
{
    match j {
        JsonView::Null => false,
        JsonView::Bool(_) => true,
        JsonView::Num(_) => true,
        JsonView::Str(_) => true,
        JsonView::Arr(v) => forall|i: int| 0 <= i < v.len() ==> json_no_null(#[trigger] v[i]),
        JsonView::Obj(v) => forall|i: int|
            0 <= i < v.len() ==> json_no_null((#[trigger] v[i]).1),
    }
}

/// Whether the object entries hold the given key.
pub open spec fn obj_has_key(es: Seq<(Seq<char>, JsonView)>, k: Seq<char>) -> bool {
    exists|i: int| 0 <= i < es.len() && (#[trigger] es[i]).0 == k
}

proof fn lemma_entries_concat_no_null(a: Seq<(Seq<char>, JsonView)>, b: Seq<(Seq<char>, JsonView)>)
    requires
        forall|i: int| 0 <= i < a.len() ==> json_no_null((#[trigger] a[i]).1),
        forall|i: int| 0 <= i < b.len() ==> json_no_null((#[trigger] b[i]).1),
    ensures
        forall|i: int| 0 <= i < (a + b).len() ==> json_no_null((#[trigger] (a + b)[i]).1),
{
    assert forall|i: int| 0 <= i < (a + b).len() implies json_no_null(
        (#[trigger] (a + b)[i]).1,
    ) by {
        if i < a.len() {
            assert((a + b)[i] == a[i]);
        } else {
            assert((a + b)[i] == b[i - a.len()]);
        }
    }
}

proof fn lemma_opt_entry_no_null(k: Seq<char>, v: Option<Seq<char>>)
    ensures
        forall|i: int|
            0 <= i < opt_entry(k, v).len() ==> json_no_null((#[trigger] opt_entry(k, v)[i]).1),
{
}

proof fn lemma_obj_no_null_all(es: Seq<(Seq<char>, JsonView)>)
    requires
        forall|i: int| 0 <= i < es.len() ==> json_no_null((#[trigger] es[i]).1),
    ensures
        json_no_null(JsonView::Obj(es)),
{
}

proof fn lemma_arr_no_null_all(v: Seq<JsonView>)
    requires
        forall|i: int| 0 <= i < v.len() ==> json_no_null(#[trigger] v[i]),
    ensures
        json_no_null(JsonView::Arr(v)),
{
}

proof fn lemma_entries1_no_null(es: Seq<(Seq<char>, JsonView)>, a: (Seq<char>, JsonView))
    requires
        es == seq![a],
        json_no_null(a.1),
    ensures
        forall|i: int| 0 <= i < es.len() ==> json_no_null((#[trigger] es[i]).1),
{
    assert forall|i: int| 0 <= i < es.len() implies json_no_null((#[trigger] es[i]).1) by {
        assert(es[i] == a);
    }
}

proof fn lemma_entries2_no_null(
    es: Seq<(Seq<char>, JsonView)>,
    a: (Seq<char>, JsonView),
    b: (Seq<char>, JsonView),
)
    requires
        es == seq![a, b],
        json_no_null(a.1),
        json_no_null(b.1),
    ensures
        forall|i: int| 0 <= i < es.len() ==> json_no_null((#[trigger] es[i]).1),
{
    assert forall|i: int| 0 <= i < es.len() implies json_no_null((#[trigger] es[i]).1) by {
        if i == 0 {
            assert(es[i] == a);
        } else {
            assert(es[i] == b);
        }
    }
}

proof fn lemma_mark_no_null(m: MarkView)
    ensures
        json_no_null(json_of_mark(m)),
{
    match m {
        MarkView::Code => {
            lemma_entries1_no_null(seq![("type"@, JsonView::Str("code"@))], ("type"@, JsonView::Str("code"@)));
            lemma_obj_no_null_all(seq![("type"@, JsonView::Str("code"@))]);
        },
        MarkView::Em => {
            lemma_entries1_no_null(seq![("type"@, JsonView::Str("em"@))], ("type"@, JsonView::Str("em"@)));
            lemma_obj_no_null_all(seq![("type"@, JsonView::Str("em"@))]);
        },
        MarkView::Link { href, title } => {
            let inner = seq![("href"@, JsonView::Str(href))] + opt_entry("title"@, title);
            lemma_entries1_no_null(seq![("href"@, JsonView::Str(href))], ("href"@, JsonView::Str(href)));
            lemma_opt_entry_no_null("title"@, title);
            lemma_entries_concat_no_null(
                seq![("href"@, JsonView::Str(href))],
                opt_entry("title"@, title),
            );
            lemma_obj_no_null_all(inner);
            lemma_entries2_no_null(
                seq![("type"@, JsonView::Str("link"@)), ("attrs"@, JsonView::Obj(inner))],
                ("type"@, JsonView::Str("link"@)),
                ("attrs"@, JsonView::Obj(inner)),
            );
            lemma_obj_no_null_all(
                seq![("type"@, JsonView::Str("link"@)), ("attrs"@, JsonView::Obj(inner))],
            );
        },
        MarkView::Strike => {
            lemma_entries1_no_null(seq![("type"@, JsonView::Str("strike"@))], ("type"@, JsonView::Str("strike"@)));
            lemma_obj_no_null_all(seq![("type"@, JsonView::Str("strike"@))]);
        },
        MarkView::Strong => {
            lemma_entries1_no_null(seq![("type"@, JsonView::Str("strong"@))], ("type"@, JsonView::Str("strong"@)));
            lemma_obj_no_null_all(seq![("type"@, JsonView::Str("strong"@))]);
        },
        MarkView::Subsup { subsuptype } => {
            let inner = seq![("type"@, JsonView::Str(subsup_name(subsuptype)))];
            lemma_entries1_no_null(seq![("type"@, JsonView::Str(subsup_name(subsuptype)))], ("type"@, JsonView::Str(subsup_name(subsuptype))));
            lemma_obj_no_null_all(inner);
            lemma_entries2_no_null(
                seq![("type"@, JsonView::Str("subsup"@)), ("attrs"@, JsonView::Obj(inner))],
                ("type"@, JsonView::Str("subsup"@)),
                ("attrs"@, JsonView::Obj(inner)),
            );
            lemma_obj_no_null_all(
                seq![("type"@, JsonView::Str("subsup"@)), ("attrs"@, JsonView::Obj(inner))],
            );
        },
        MarkView::TextColor { color } => {
            let inner = seq![("color"@, JsonView::Str(color))];
            lemma_entries1_no_null(seq![("color"@, JsonView::Str(color))], ("color"@, JsonView::Str(color)));
            lemma_obj_no_null_all(inner);
            lemma_entries2_no_null(
                seq![("type"@, JsonView::Str("textColor"@)), ("attrs"@, JsonView::Obj(inner))],
                ("type"@, JsonView::Str("textColor"@)),
                ("attrs"@, JsonView::Obj(inner)),
            );
            lemma_obj_no_null_all(
                seq![("type"@, JsonView::Str("textColor"@)), ("attrs"@, JsonView::Obj(inner))],
            );
        },
        MarkView::Underline => {
            lemma_entries1_no_null(seq![("type"@, JsonView::Str("underline"@))], ("type"@, JsonView::Str("underline"@)));
            lemma_obj_no_null_all(seq![("type"@, JsonView::Str("underline"@))]);
        },
    }
}

proof fn lemma_json_of_nodes_index(s: Seq<NodeView>)
    ensures
        json_of_nodes(s).len() == s.len(),
        forall|i: int|
            0 <= i < s.len() ==> #[trigger] json_of_nodes(s)[i] == json_of_node(s[i]),
    decreases s,
{
    if s.len() > 0 {
        lemma_json_of_nodes_index(s.drop_first());
    }
}

proof fn lemma_block_attrs_no_null(t: BlockTypeView)
    ensures
        block_attrs(t) matches Some(a) ==> json_no_null(a),
{
    match t {
        BlockTypeView::CodeBlock { language } => {
            lemma_opt_entry_no_null("language"@, language);
            lemma_obj_no_null_all(opt_entry("language"@, language));
        },
        BlockTypeView::Heading { level } => {
            lemma_entries1_no_null(seq![("level"@, JsonView::Num(level as u64))], ("level"@, JsonView::Num(level as u64)));
            lemma_obj_no_null_all(seq![("level"@, JsonView::Num(level as u64))]);
        },
        BlockTypeView::Table { is_number_column_enabled, layout } => {
            lemma_entries2_no_null(
                seq![
                    ("isNumberColumnEnabled"@, JsonView::Bool(is_number_column_enabled)),
                    ("layout"@, JsonView::Str(layout_name(layout))),
                ],
                ("isNumberColumnEnabled"@, JsonView::Bool(is_number_column_enabled)),
                ("layout"@, JsonView::Str(layout_name(layout))),
            );
            lemma_obj_no_null_all(
                seq![
                    ("isNumberColumnEnabled"@, JsonView::Bool(is_number_column_enabled)),
                    ("layout"@, JsonView::Str(layout_name(layout))),
                ],
            );
        },
        BlockTypeView::TableCell { background } => {
            lemma_entries1_no_null(seq![("background"@, JsonView::Str(background))], ("background"@, JsonView::Str(background)));
            lemma_obj_no_null_all(seq![("background"@, JsonView::Str(background))]);
        },
        _ => {},
    }
}

proof fn lemma_inline_attrs_no_null(t: InlineTypeView)
    ensures
        inline_attrs(t) matches Some(a) ==> json_no_null(a),
{
    match t {
        InlineTypeView::Emoji { id, short_name, text } => {
            lemma_opt_entry_no_null("id"@, id);
            lemma_entries1_no_null(seq![("shortName"@, JsonView::Str(short_name))], ("shortName"@, JsonView::Str(short_name)));
            lemma_opt_entry_no_null("text"@, text);
            lemma_entries_concat_no_null(
                opt_entry("id"@, id),
                seq![("shortName"@, JsonView::Str(short_name))],
            );
            lemma_entries_concat_no_null(
                opt_entry("id"@, id) + seq![("shortName"@, JsonView::Str(short_name))],
                opt_entry("text"@, text),
            );
            lemma_obj_no_null_all(
                opt_entry("id"@, id) + seq![("shortName"@, JsonView::Str(short_name))]
                    + opt_entry("text"@, text),
            );
        },
        InlineTypeView::InlineCard { url } => {
            lemma_entries1_no_null(seq![("url"@, JsonView::Str(url))], ("url"@, JsonView::Str(url)));
            lemma_obj_no_null_all(seq![("url"@, JsonView::Str(url))]);
        },
        InlineTypeView::Mention { id, text, user_type } => {
            lemma_entries1_no_null(seq![("id"@, JsonView::Str(id))], ("id"@, JsonView::Str(id)));
            lemma_opt_entry_no_null("text"@, text);
            lemma_opt_entry_no_null("userType"@, user_type);
            lemma_entries_concat_no_null(
                seq![("id"@, JsonView::Str(id))],
                opt_entry("text"@, text),
            );
            lemma_entries_concat_no_null(
                seq![("id"@, JsonView::Str(id))] + opt_entry("text"@, text),
                opt_entry("userType"@, user_type),
            );
            lemma_obj_no_null_all(
                seq![("id"@, JsonView::Str(id))] + opt_entry("text"@, text) + opt_entry(
                    "userType"@,
                    user_type,
                ),
            );
        },
        _ => {},
    }
}

proof fn lemma_attrs_entry_no_null(a: Option<JsonView>)
    requires
        a matches Some(x) ==> json_no_null(x),
    ensures
        forall|i: int|
            0 <= i < attrs_entry(a).len() ==> json_no_null((#[trigger] attrs_entry(a)[i]).1),
{
    match a {
        Some(x) => {
            assert forall|i: int| 0 <= i < attrs_entry(a).len() implies json_no_null(
                (#[trigger] attrs_entry(a)[i]).1,
            ) by {
                assert(attrs_entry(a)[i] == ("attrs"@, x));
            }
        },
        None => {},
    }
}

proof fn lemma_marks_entry_no_null(marks: Option<Seq<MarkView>>)
    ensures
        forall|i: int|
            0 <= i < marks_entry(marks).len() ==> json_no_null(
                (#[trigger] marks_entry(marks)[i]).1,
            ),
{
    match marks {
        Some(ms) => {
            if ms.len() > 0 {
                assert forall|i: int| 0 <= i < json_of_marks(ms).len() implies json_no_null(
                    #[trigger] json_of_marks(ms)[i],
                ) by {
                    lemma_mark_no_null(ms[i]);
                }
                lemma_arr_no_null_all(json_of_marks(ms));
                assert forall|i: int| 0 <= i < marks_entry(marks).len() implies json_no_null(
                    (#[trigger] marks_entry(marks)[i]).1,
                ) by {
                    assert(marks_entry(marks)[i] == (
                        "marks"@,
                        JsonView::Arr(json_of_marks(ms)),
                    ));
                }
            }
        },
        None => {},
    }
}

/// Serialization never writes `null`: optional fields that are absent
/// are omitted from the output instead.
pub proof fn lemma_serialize_never_null(t: NodeView)
    ensures
        json_no_null(json_of_node(t)),
    decreases t,
{
    match t {
        NodeView::Root { version, doctype, content } => {
            lemma_json_of_nodes_index(content);
            assert forall|i: int| 0 <= i < json_of_nodes(content).len() implies json_no_null(
                #[trigger] json_of_nodes(content)[i],
            ) by {
                lemma_serialize_never_null(content[i]);
            }
            lemma_arr_no_null_all(json_of_nodes(content));
            let e0 = ("version"@, JsonView::Num(version as u64));
            let e1 = ("type"@, JsonView::Str(doctype));
            let e2 = ("content"@, JsonView::Arr(json_of_nodes(content)));
            let es = seq![e0, e1, e2];
            assert forall|i: int| 0 <= i < es.len() implies json_no_null(
                (#[trigger] es[i]).1,
            ) by {
                if i == 0 {
                    assert(es[i] == e0);
                } else if i == 1 {
                    assert(es[i] == e1);
                } else {
                    assert(es[i] == e2);
                }
            }
            lemma_obj_no_null_all(es);
        },
        NodeView::BlockNode { nodetype, content } => {
            lemma_json_of_nodes_index(content);
            assert forall|i: int| 0 <= i < json_of_nodes(content).len() implies json_no_null(
                #[trigger] json_of_nodes(content)[i],
            ) by {
                lemma_serialize_never_null(content[i]);
            }
            lemma_arr_no_null_all(json_of_nodes(content));
            lemma_block_attrs_no_null(nodetype);
            lemma_attrs_entry_no_null(block_attrs(nodetype));
            let head = seq![("type"@, JsonView::Str(block_type_name(nodetype)))];
            let tail = seq![("content"@, JsonView::Arr(json_of_nodes(content)))];
            lemma_entries1_no_null(seq![("type"@, JsonView::Str(block_type_name(nodetype)))], ("type"@, JsonView::Str(block_type_name(nodetype))));
            lemma_entries1_no_null(seq![("content"@, JsonView::Arr(json_of_nodes(content)))], ("content"@, JsonView::Arr(json_of_nodes(content))));
            lemma_entries_concat_no_null(head, attrs_entry(block_attrs(nodetype)));
            lemma_entries_concat_no_null(head + attrs_entry(block_attrs(nodetype)), tail);
            lemma_obj_no_null_all(head + attrs_entry(block_attrs(nodetype)) + tail);
        },
        NodeView::InlineNode { nodetype, text, marks } => {
            lemma_inline_attrs_no_null(nodetype);
            lemma_attrs_entry_no_null(inline_attrs(nodetype));
            lemma_marks_entry_no_null(marks);
            lemma_opt_entry_no_null("text"@, text);
            let head = seq![("type"@, JsonView::Str(inline_type_name(nodetype)))];
            lemma_entries1_no_null(seq![("type"@, JsonView::Str(inline_type_name(nodetype)))], ("type"@, JsonView::Str(inline_type_name(nodetype))));
            lemma_entries_concat_no_null(head, attrs_entry(inline_attrs(nodetype)));
            lemma_entries_concat_no_null(
                head + attrs_entry(inline_attrs(nodetype)),
                opt_entry("text"@, text),
            );
            lemma_entries_concat_no_null(
                head + attrs_entry(inline_attrs(nodetype)) + opt_entry("text"@, text),
                marks_entry(marks),
            );
            lemma_obj_no_null_all(
                head + attrs_entry(inline_attrs(nodetype)) + opt_entry("text"@, text)
                    + marks_entry(marks),
            );
        },
    }
}

/// For an inline node, the `text` and `marks` fields appear in the
/// serialized object exactly when the node carries them (marks only
/// when non-empty): an absent field is omitted, never written as
/// `null`.
pub proof fn lemma_optional_fields_omitted(
    nodetype: InlineTypeView,
    text: Option<Seq<char>>,
    marks: Option<Seq<MarkView>>,
)
    ensures
        json_of_node(NodeView::InlineNode { nodetype, text, marks }) matches JsonView::Obj(es)
            && (obj_has_key(es, "text"@) <==> text is Some) && (obj_has_key(es, "marks"@) <==> (
        marks matches Some(ms)
            && ms.len() > 0)),
{
    reveal_strlit("type");
    reveal_strlit("attrs");
    reveal_strlit("text");
    reveal_strlit("marks");
    let head = seq![("type"@, JsonView::Str(inline_type_name(nodetype)))];
    let attrs = attrs_entry(inline_attrs(nodetype));
    let texts = opt_entry("text"@, text);
    let markss = marks_entry(marks);
    let es = head + attrs + texts + markss;
    assert(json_of_node(NodeView::InlineNode { nodetype, text, marks }) == JsonView::Obj(es));
    if text is Some {
        let i: int = 1 + attrs.len() as int;
        assert(es[i] == texts[0]);
        assert(es[i].0 == "text"@);
    }
    if marks matches Some(ms) && ms.len() > 0 {
        let i: int = es.len() as int - 1;
        assert(es[i] == markss[0]);
        assert(es[i].0 == "marks"@);
    }
    assert forall|i: int| 0 <= i < es.len() implies ((#[trigger] es[i]).0 == "text"@ ==> text
        is Some) && (es[i].0 == "marks"@ ==> (marks matches Some(ms) && ms.len() > 0)) by {
        if i < 1 {
            assert(es[i] == head[0]);
            assert(es[i].0 == "type"@);
            assert("type"@[1] != "text"@[1]);
            assert("type"@ != "text"@);
            assert("type"@ != "marks"@);
        } else if i < 1 + attrs.len() {
            assert(es[i] == attrs[i - 1]);
            assert(es[i].0 == "attrs"@);
            assert("attrs"@[0] != "marks"@[0]);
            assert("attrs"@ != "text"@);
            assert("attrs"@ != "marks"@);
        } else if i < 1 + attrs.len() + texts.len() {
            assert(es[i] == texts[i - 1 - attrs.len()]);
            assert(es[i].0 == "text"@);
        } else {
            assert(es[i] == markss[i - 1 - attrs.len() - texts.len()]);
            assert(es[i].0 == "marks"@);
        }
    }
}

/// A block node's serialized object holds an `attrs` entry exactly when
/// its kind carries fields; a kind without fields has the entry
/// omitted, never written empty or null.
pub proof fn lemma_block_attrs_omitted(nodetype: BlockTypeView, content: Seq<NodeView>)
    ensures
        json_of_node(NodeView::BlockNode { nodetype, content }) matches JsonView::Obj(es) && (
        obj_has_key(es, "attrs"@) <==> block_attrs(nodetype) is Some),
{
    reveal_strlit("type");
    reveal_strlit("attrs");
    reveal_strlit("content");
    let head = seq![("type"@, JsonView::Str(block_type_name(nodetype)))];
    let attrs = attrs_entry(block_attrs(nodetype));
    let tail = seq![("content"@, JsonView::Arr(json_of_nodes(content)))];
    let es = head + attrs + tail;
    assert(json_of_node(NodeView::BlockNode { nodetype, content }) == JsonView::Obj(es));
    if block_attrs(nodetype) is Some {
        assert(es[1] == attrs[0]);
        assert(es[1].0 == "attrs"@);
    }
    assert forall|i: int| 0 <= i < es.len() implies ((#[trigger] es[i]).0 == "attrs"@
        ==> block_attrs(nodetype) is Some) by {
        if i < 1 {
            assert(es[i] == head[0]);
            assert("type"@[0] != "attrs"@[0]);
        } else if i < 1 + attrs.len() {
            assert(es[i] == attrs[i - 1]);
        } else {
            assert(es[i] == tail[i - 1 - attrs.len()]);
            assert("content"@.len() != "attrs"@.len());
        }
    }
}

/// Any table block reachable in a converted document serializes its
/// attributes as exactly `isNumberColumnEnabled: false` with the
/// default layout, and any table cell its background as `"#ffffff"`,
/// whatever the source table held.
pub proof fn lemma_converted_table_attrs(
    m: crate::md::MdNode,
    marks: Option<Seq<MarkView>>,
    t: NodeView,
    sub: NodeView,
)
    requires
        crate::convert::md_transform(m, marks) == Ok::<
            NodeView,
            crate::convert::ConversionErrorView,
        >(t),
        crate::doc::node_in(t, sub),
    ensures
        sub matches NodeView::BlockNode { nodetype, .. } ==> {
            &&& nodetype is Table ==> block_attrs(nodetype) == Some(
                JsonView::Obj(
                    seq![
                        ("isNumberColumnEnabled"@, JsonView::Bool(false)),
                        ("layout"@, JsonView::Str("default"@)),
                    ],
                ),
            )
            &&& nodetype is TableCell ==> block_attrs(nodetype) == Some(
                JsonView::Obj(seq![("background"@, JsonView::Str("#ffffff"@))]),
            )
        },
{
    crate::convert::lemma_transform_tables_fixed(m, marks);
    crate::convert::lemma_tables_fixed_hereditary(t, sub);
}

fn block_type_name_exec(t: &crate::doc::BlockNodeType) -> (r: String)
    ensures
        r@ == block_type_name(crate::doc::block_type_view(*t)),
{
    match t {
        crate::doc::BlockNodeType::BlockQuote => String::from_str("blockQuote"),
        crate::doc::BlockNodeType::BulletList => String::from_str("bulletList"),
        crate::doc::BlockNodeType::CodeBlock { .. } => String::from_str("codeBlock"),
        crate::doc::BlockNodeType::Heading { .. } => String::from_str("heading"),
        crate::doc::BlockNodeType::MediaGroup => String::from_str("mediaGroup"),
        crate::doc::BlockNodeType::MediaSingle => String::from_str("mediaSingle"),
        crate::doc::BlockNodeType::OrderedList => String::from_str("orderedList"),
        crate::doc::BlockNodeType::Panel => String::from_str("panel"),
        crate::doc::BlockNodeType::Paragraph => String::from_str("paragraph"),
        crate::doc::BlockNodeType::Rule => String::from_str("rule"),
        crate::doc::BlockNodeType::Table { .. } => String::from_str("table"),
        crate::doc::BlockNodeType::ListItem => String::from_str("listItem"),
        crate::doc::BlockNodeType::Media => String::from_str("media"),
        crate::doc::BlockNodeType::TableCell { .. } => String::from_str("tableCell"),
        crate::doc::BlockNodeType::TableHeader => String::from_str("tableHeader"),
        crate::doc::BlockNodeType::TableRow => String::from_str("tableRow"),
    }
}

fn inline_type_name_exec(t: &crate::doc::InlineNodeType) -> (r: String)
    ensures
        r@ == inline_type_name(crate::doc::inline_type_view(*t)),
{
    match t {
        crate::doc::InlineNodeType::Emoji { .. } => String::from_str("emoji"),
        crate::doc::InlineNodeType::HardBreak => String::from_str("hardBreak"),
        crate::doc::InlineNodeType::InlineCard { .. } => String::from_str("inlineCard"),
        crate::doc::InlineNodeType::Mention { .. } => String::from_str("mention"),
        crate::doc::InlineNodeType::Text => String::from_str("text"),
    }
}

fn block_attrs_exec(t: &crate::doc::BlockNodeType) -> (r: Option<JsonValue>)
    ensures
        (match r {
            Some(j) => Some(json_view(j)),
            None => None,
        }) == block_attrs(crate::doc::block_type_view(*t)),
{
    match t {
        crate::doc::BlockNodeType::CodeBlock { language } => {
            let mut attrs: Vec<(String, JsonValue)> = Vec::new();
            match language {
                Some(l) => {
                    push_entry(&mut attrs, "language", JsonValue::Str(l.clone()));
                },
                None => {},
            }
            proof {
                assert(jobj_view(attrs@) =~= opt_entry(
                    "language"@,
                    crate::doc::opt_string_view(*language),
                ));
            }
            Some(JsonValue::Obj(attrs))
        },
        crate::doc::BlockNodeType::Heading { level } => {
            let mut attrs: Vec<(String, JsonValue)> = Vec::new();
            push_entry(&mut attrs, "level", JsonValue::Num(*level as u64));
            proof {
                assert(jobj_view(attrs@) =~= seq![("level"@, JsonView::Num(*level as u64))]);
            }
            Some(JsonValue::Obj(attrs))
        },
        crate::doc::BlockNodeType::Table { is_number_column_enabled, layout } => {
            let mut attrs: Vec<(String, JsonValue)> = Vec::new();
            push_entry(
                &mut attrs,
                "isNumberColumnEnabled",
                JsonValue::Bool(*is_number_column_enabled),
            );
            let lname = match layout {
                TableLayout::Default => String::from_str("default"),
                TableLayout::FullWidth => String::from_str("full-width"),
                TableLayout::Wide => String::from_str("wide"),
            };
            push_entry(&mut attrs, "layout", JsonValue::Str(lname));
            proof {
                assert(jobj_view(attrs@) =~= seq![
                    ("isNumberColumnEnabled"@, JsonView::Bool(*is_number_column_enabled)),
                    ("layout"@, JsonView::Str(layout_name(*layout))),
                ]);
            }
            Some(JsonValue::Obj(attrs))
        },
        crate::doc::BlockNodeType::TableCell { background } => {
            let mut attrs: Vec<(String, JsonValue)> = Vec::new();
            push_entry(&mut attrs, "background", JsonValue::Str(background.clone()));
            proof {
                assert(jobj_view(attrs@) =~= seq![("background"@, JsonView::Str(background@))]);
            }
            Some(JsonValue::Obj(attrs))
        },
        _ => None,
    }
}

fn inline_attrs_exec(t: &crate::doc::InlineNodeType) -> (r: Option<JsonValue>)
    ensures
        (match r {
            Some(j) => Some(json_view(j)),
            None => None,
        }) == inline_attrs(crate::doc::inline_type_view(*t)),
{
    match t {
        crate::doc::InlineNodeType::Emoji { id, short_name, text } => {
            let mut attrs: Vec<(String, JsonValue)> = Vec::new();
            match id {
                Some(s) => {
                    push_entry(&mut attrs, "id", JsonValue::Str(s.clone()));
                },
                None => {},
            }
            push_entry(&mut attrs, "shortName", JsonValue::Str(short_name.clone()));
            match text {
                Some(s) => {
                    push_entry(&mut attrs, "text", JsonValue::Str(s.clone()));
                },
                None => {},
            }
            proof {
                assert(jobj_view(attrs@) =~= opt_entry("id"@, crate::doc::opt_string_view(*id))
                    + seq![("shortName"@, JsonView::Str(short_name@))] + opt_entry(
                    "text"@,
                    crate::doc::opt_string_view(*text),
                ));
            }
            Some(JsonValue::Obj(attrs))
        },
        crate::doc::InlineNodeType::InlineCard { url } => {
            let mut attrs: Vec<(String, JsonValue)> = Vec::new();
            push_entry(&mut attrs, "url", JsonValue::Str(url.clone()));
            proof {
                assert(jobj_view(attrs@) =~= seq![("url"@, JsonView::Str(url@))]);
            }
            Some(JsonValue::Obj(attrs))
        },
        crate::doc::InlineNodeType::Mention { id, text, user_type } => {
            let mut attrs: Vec<(String, JsonValue)> = Vec::new();
            push_entry(&mut attrs, "id", JsonValue::Str(id.clone()));
            match text {
                Some(s) => {
                    push_entry(&mut attrs, "text", JsonValue::Str(s.clone()));
                },
                None => {},
            }
            match user_type {
                Some(s) => {
                    push_entry(&mut attrs, "userType", JsonValue::Str(s.clone()));
                },
                None => {},
            }
            proof {
                assert(jobj_view(attrs@) =~= seq![("id"@, JsonView::Str(id@))] + opt_entry(
                    "text"@,
                    crate::doc::opt_string_view(*text),
                ) + opt_entry("userType"@, crate::doc::opt_string_view(*user_type)));
            }
            Some(JsonValue::Obj(attrs))
        },
        crate::doc::InlineNodeType::HardBreak => None,
        crate::doc::InlineNodeType::Text => None,
    }
}

} // verus!
