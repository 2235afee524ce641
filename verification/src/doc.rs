//! The rich-document tree that issue descriptions are written in: a
//! `Node` tree of block and inline nodes, inline formatting `Mark`s, and
//! the ghost views of all of these used by specifications.

use vstd::prelude::*;

verus! {

/// Layout of a table block.
#[derive(Clone, Debug, PartialEq, Eq)]
pub enum TableLayout {
    Default,
    FullWidth,
    Wide,
}

/// Whether a subsup mark raises or lowers its text.
#[derive(Clone, Debug, PartialEq, Eq)]
pub enum SubsupType {
    Sup,
    Sub,
}

/// An inline formatting mark attached to a leaf text node.
#[derive(Clone, Debug, PartialEq, Eq)]
pub enum Mark {
    Code,
    Em,
    Link { href: String, title: Option<String> },
    Strike,
    Strong,
    Subsup { subsuptype: SubsupType },
    TextColor { color: String },
    Underline,
}

/// Ghost view of a `Mark`: strings become sequences of characters.
pub enum MarkView {
    Code,
    Em,
    Link { href: Seq<char>, title: Option<Seq<char>> },
    Strike,
    Strong,
    Subsup { subsuptype: SubsupType },
    TextColor { color: Seq<char> },
    Underline,
}

/// The kind of a block-level node, together with its kind-specific
/// attributes.
#[derive(Clone, Debug, PartialEq, Eq)]
pub enum BlockNodeType {
    BlockQuote,
    BulletList,
    CodeBlock { language: Option<String> },
    Heading { level: u32 },
    MediaGroup,
    MediaSingle,
    OrderedList,
    Panel,
    Paragraph,
    Rule,
    Table { is_number_column_enabled: bool, layout: TableLayout },
    ListItem,
    Media,
    TableCell { background: String },
    TableHeader,
    TableRow,
}

/// Ghost view of a `BlockNodeType`.
pub enum BlockTypeView {
    BlockQuote,
    BulletList,
    CodeBlock { language: Option<Seq<char>> },
    Heading { level: u32 },
    MediaGroup,
    MediaSingle,
    OrderedList,
    Panel,
    Paragraph,
    Rule,
    Table { is_number_column_enabled: bool, layout: TableLayout },
    ListItem,
    Media,
    TableCell { background: Seq<char> },
    TableHeader,
    TableRow,
}

/// The kind of an inline node, together with its kind-specific
/// attributes.
#[derive(Clone, Debug, PartialEq, Eq)]
pub enum InlineNodeType {
    Emoji { id: Option<String>, short_name: String, text: Option<String> },
    HardBreak,
    InlineCard { url: String },
    Mention { id: String, text: Option<String>, user_type: Option<String> },
    Text,
}

/// Ghost view of an `InlineNodeType`.
pub enum InlineTypeView {
    Emoji { id: Option<Seq<char>>, short_name: Seq<char>, text: Option<Seq<char>> },
    HardBreak,
    InlineCard { url: Seq<char> },
    Mention { id: Seq<char>, text: Option<Seq<char>>, user_type: Option<Seq<char>> },
    Text,
}

/// One node of the rich-document tree.  A document is a single `Root`
/// whose `content` holds the top-level blocks.
#[derive(Debug, PartialEq, Eq)]
pub enum Node {
    BlockNode { nodetype: BlockNodeType, content: Vec<Node> },
    InlineNode { nodetype: InlineNodeType, text: Option<String>, marks: Option<Vec<Mark>> },
    Root { version: usize, doctype: String, content: Vec<Node> },
}

/// Ghost view of a `Node` tree.
pub enum NodeView {
    BlockNode { nodetype: BlockTypeView, content: Seq<NodeView> },
    InlineNode { nodetype: InlineTypeView, text: Option<Seq<char>>, marks: Option<Seq<MarkView>> },
    Root { version: usize, doctype: Seq<char>, content: Seq<NodeView> },
}

pub open spec fn mark_view(m: Mark) -> MarkView {
    match m {
        Mark::Code => MarkView::Code,
        Mark::Em => MarkView::Em,
        Mark::Link { href, title } => MarkView::Link {
            href: href@,
            title: match title {
                Some(t) => Some(t@),
                None => None,
            },
        },
        Mark::Strike => MarkView::Strike,
        Mark::Strong => MarkView::Strong,
        Mark::Subsup { subsuptype } => MarkView::Subsup { subsuptype },
        Mark::TextColor { color } => MarkView::TextColor { color: color@ },
        Mark::Underline => MarkView::Underline,
    }
}

pub open spec fn marks_view(ms: Seq<Mark>) -> Seq<MarkView> {
    Seq::new(ms.len(), |i: int| mark_view(ms[i]))
}

/// View of an optional mark accumulator.
pub open spec fn opt_marks_view(ms: Option<Vec<Mark>>) -> Option<Seq<MarkView>> {
    match ms {
        Some(v) => Some(marks_view(v@)),
        None => None,
    }
}

pub open spec fn opt_string_view(s: Option<String>) -> Option<Seq<char>> {
    match s {
        Some(t) => Some(t@),
        None => None,
    }
}

pub open spec fn block_type_view(t: BlockNodeType) -> BlockTypeView {
    match t {
        BlockNodeType::BlockQuote => BlockTypeView::BlockQuote,
        BlockNodeType::BulletList => BlockTypeView::BulletList,
        BlockNodeType::CodeBlock { language } => BlockTypeView::CodeBlock {
            language: opt_string_view(language),
        },
        BlockNodeType::Heading { level } => BlockTypeView::Heading { level },
        BlockNodeType::MediaGroup => BlockTypeView::MediaGroup,
        BlockNodeType::MediaSingle => BlockTypeView::MediaSingle,
        BlockNodeType::OrderedList => BlockTypeView::OrderedList,
        BlockNodeType::Panel => BlockTypeView::Panel,
        BlockNodeType::Paragraph => BlockTypeView::Paragraph,
        BlockNodeType::Rule => BlockTypeView::Rule,
        BlockNodeType::Table { is_number_column_enabled, layout } => BlockTypeView::Table {
            is_number_column_enabled,
            layout,
        },
        BlockNodeType::ListItem => BlockTypeView::ListItem,
        BlockNodeType::Media => BlockTypeView::Media,
        BlockNodeType::TableCell { background } => BlockTypeView::TableCell {
            background: background@,
        },
        BlockNodeType::TableHeader => BlockTypeView::TableHeader,
        BlockNodeType::TableRow => BlockTypeView::TableRow,
    }
}

pub open spec fn inline_type_view(t: InlineNodeType) -> InlineTypeView {
    match t {
        InlineNodeType::Emoji { id, short_name, text } => InlineTypeView::Emoji {
            id: opt_string_view(id),
            short_name: short_name@,
            text: opt_string_view(text),
        },
        InlineNodeType::HardBreak => InlineTypeView::HardBreak,
        InlineNodeType::InlineCard { url } => InlineTypeView::InlineCard { url: url@ },
        InlineNodeType::Mention { id, text, user_type } => InlineTypeView::Mention {
            id: id@,
            text: opt_string_view(text),
            user_type: opt_string_view(user_type),
        },
        InlineNodeType::Text => InlineTypeView::Text,
    }
}

pub open spec fn node_view(n: Node) -> NodeView
    decreases n,
{
    match n {
        Node::BlockNode { nodetype, content } => NodeView::BlockNode {
            nodetype: block_type_view(nodetype),
            content: nodes_view(content@),
        },
        Node::InlineNode { nodetype, text, marks } => NodeView::InlineNode {
            nodetype: inline_type_view(nodetype),
            text: opt_string_view(text),
            marks: match marks {
                Some(v) => Some(marks_view(v@)),
                None => None,
            },
        },
        Node::Root { version, doctype, content } => NodeView::Root {
            version,
            doctype: doctype@,
            content: nodes_view(content@),
        },
    }
}

pub open spec fn nodes_view(s: Seq<Node>) -> Seq<NodeView>
    decreases s,
{
    if s.len() == 0 {
        Seq::empty()
    } else {
        seq![node_view(s[0])] + nodes_view(s.drop_first())
    }
}

/// Whether `sub` occurs somewhere in the tree `t` (including `t`
/// itself).
pub open spec fn node_in(t: NodeView, sub: NodeView) -> bool
    decreases t,
{
    sub == t || (match t {
        NodeView::BlockNode { content, .. } => exists|i: int|
            0 <= i < content.len() && node_in(#[trigger] content[i], sub),
        NodeView::Root { content, .. } => exists|i: int|
            0 <= i < content.len() && node_in(#[trigger] content[i], sub),
        NodeView::InlineNode { .. } => false,
    })
}

/// Appending a node to a sequence appends its view to the sequence's view.
pub proof fn lemma_nodes_view_push(s: Seq<Node>, n: Node)
    ensures
        nodes_view(s.push(n)) == nodes_view(s).push(node_view(n)),
    decreases s,
{
    if s.len() == 0 {
        assert(s.push(n).drop_first() =~= s);
        assert(s.push(n)[0] == n);
        assert(nodes_view(s.push(n)) =~= nodes_view(s).push(node_view(n)));
    } else {
        assert(s.push(n).drop_first() =~= s.drop_first().push(n));
        lemma_nodes_view_push(s.drop_first(), n);
        assert(nodes_view(s.push(n)) =~= nodes_view(s).push(node_view(n)));
    }
}

} // verus!
