//! Conversion of a markdown syntax tree into the rich-document tree.
//!
//! The conversion is a single depth-first pass that carries an
//! accumulator of the inline formatting marks in effect at the current
//! point of descent.  Marks are only materialized at the first leaf text
//! node reached; block-level nodes reset the accumulator for their
//! children.  Constructs with no representation in the document schema
//! abort the whole conversion with an error: no partial tree is ever
//! returned.

use vstd::prelude::*;
use vstd::utf8::decode_utf8;
use vstd::utf8::valid_utf8;

use crate::doc::BlockNodeType;
use crate::doc::BlockTypeView;
use crate::doc::InlineNodeType;
use crate::doc::InlineTypeView;
use crate::doc::Mark;
use crate::doc::MarkView;
use crate::doc::Node;
use crate::doc::NodeView;
use crate::doc::SubsupType;
use crate::doc::TableLayout;
use crate::doc::lemma_nodes_view_push;
use crate::doc::mark_view;
use crate::doc::marks_view;
use crate::doc::nodes_view;
use crate::doc::opt_marks_view;
use crate::md::MdNode;

verus! {

/// Why a conversion failed.  Any failure aborts the whole conversion.
#[derive(Clone, Debug, PartialEq, Eq)]
pub enum ConversionError {
    /// The input uses a markdown construct with no representation in the
    /// document schema; the payload names the construct.
    UnsupportedFeature(String),
    /// A mark-accumulating construct (emphasis, strong, strikethrough,
    /// superscript, link) has no child to recurse into.
    StructuralError,
    /// A text payload's bytes are not valid text.
    InvalidText,
}

/// Ghost view of a `ConversionError`.
pub enum ConversionErrorView {
    UnsupportedFeature(Seq<char>),
    StructuralError,
    InvalidText,
}

pub open spec fn error_view(e: ConversionError) -> ConversionErrorView {
    match e {
        ConversionError::UnsupportedFeature(f) => ConversionErrorView::UnsupportedFeature(f@),
        ConversionError::StructuralError => ConversionErrorView::StructuralError,
        ConversionError::InvalidText => ConversionErrorView::InvalidText,
    }
}

pub open spec fn result_view(r: Result<Node, ConversionError>) -> Result<
    NodeView,
    ConversionErrorView,
> {
    match r {
        Ok(n) => Ok(crate::doc::node_view(n)),
        Err(e) => Err(error_view(e)),
    }
}

pub open spec fn children_result_view(r: Result<Vec<Node>, ConversionError>) -> Result<
    Seq<NodeView>,
    ConversionErrorView,
> {
    match r {
        Ok(v) => Ok(nodes_view(v@)),
        Err(e) => Err(error_view(e)),
    }
}

/// The mark accumulator after appending one mark: marks accumulate at
/// the end, so the sequence is ordered outermost mark first.
pub open spec fn push_mark(marks: Option<Seq<MarkView>>, m: MarkView) -> Seq<MarkView> {
    match marks {
        Some(s) => s.push(m),
        None => seq![m],
    }
}

/// What converting one markdown node under a given mark accumulator
/// yields: the full functional specification of the conversion.
pub open spec fn md_transform(m: MdNode, marks: Option<Seq<MarkView>>) -> Result<
    NodeView,
    ConversionErrorView,
>
    decreases m,
{
    match m {
        MdNode::Document { children } => match md_transform_seq(children@) {
            Ok(cs) => Ok(NodeView::Root { version: 1, doctype: "doc"@, content: cs }),
            Err(e) => Err(e),
        },
        MdNode::BlockQuote { children } => block_of(
            BlockTypeView::BlockQuote,
            md_transform_seq(children@),
        ),
        MdNode::List { ordered, children } => block_of(
            if ordered {
                BlockTypeView::OrderedList
            } else {
                BlockTypeView::BulletList
            },
            md_transform_seq(children@),
        ),
        MdNode::Item { children } => block_of(
            BlockTypeView::ListItem,
            md_transform_seq(children@),
        ),
        MdNode::CodeBlock { info, children } => block_of(
            BlockTypeView::CodeBlock {
                language: if valid_utf8(info@) {
                    Some(decode_utf8(info@))
                } else {
                    None
                },
            },
            md_transform_seq(children@),
        ),
        MdNode::Paragraph { children } => block_of(
            BlockTypeView::Paragraph,
            md_transform_seq(children@),
        ),
        MdNode::Heading { level, children } => block_of(
            BlockTypeView::Heading { level },
            md_transform_seq(children@),
        ),
        MdNode::ThematicBreak => Ok(
            NodeView::BlockNode { nodetype: BlockTypeView::Rule, content: Seq::empty() },
        ),
        MdNode::Table { children } => block_of(
            BlockTypeView::Table {
                is_number_column_enabled: false,
                layout: TableLayout::Default,
            },
            md_transform_seq(children@),
        ),
        MdNode::TableRow { children } => block_of(
            BlockTypeView::TableRow,
            md_transform_seq(children@),
        ),
        MdNode::TableCell { children } => block_of(
            BlockTypeView::TableCell { background: "#ffffff"@ },
            md_transform_seq(children@),
        ),
        MdNode::Text { literal } => if valid_utf8(literal@) {
            Ok(
                NodeView::InlineNode {
                    nodetype: InlineTypeView::Text,
                    text: Some(decode_utf8(literal@)),
                    marks,
                },
            )
        } else {
            Err(ConversionErrorView::InvalidText)
        },
        MdNode::SoftBreak => Ok(
            NodeView::InlineNode {
                nodetype: InlineTypeView::Text,
                text: Some(" "@),
                marks: None,
            },
        ),
        MdNode::LineBreak => Ok(
            NodeView::InlineNode {
                nodetype: InlineTypeView::HardBreak,
                text: None,
                marks: None,
            },
        ),
        MdNode::Code { literal } => if valid_utf8(literal@) {
            Ok(
                NodeView::InlineNode {
                    nodetype: InlineTypeView::Text,
                    text: Some(decode_utf8(literal@)),
                    marks: Some(seq![MarkView::Code]),
                },
            )
        } else {
            Err(ConversionErrorView::InvalidText)
        },
        MdNode::Emph { children } => if children@.len() == 0 {
            Err(ConversionErrorView::StructuralError)
        } else {
            md_transform(children@[0], Some(push_mark(marks, MarkView::Em)))
        },
        MdNode::Strong { children } => if children@.len() == 0 {
            Err(ConversionErrorView::StructuralError)
        } else {
            md_transform(children@[0], Some(push_mark(marks, MarkView::Strong)))
        },
        MdNode::Strikethrough { children } => if children@.len() == 0 {
            Err(ConversionErrorView::StructuralError)
        } else {
            md_transform(children@[0], Some(push_mark(marks, MarkView::Strike)))
        },
        MdNode::Superscript { children } => if children@.len() == 0 {
            Err(ConversionErrorView::StructuralError)
        } else {
            md_transform(
                children@[0],
                Some(push_mark(marks, MarkView::Subsup { subsuptype: SubsupType::Sup })),
            )
        },
        MdNode::Link { url, title, children } => if !valid_utf8(url@) {
            Err(ConversionErrorView::InvalidText)
        } else if !valid_utf8(title@) {
            Err(ConversionErrorView::InvalidText)
        } else if children@.len() == 0 {
            Err(ConversionErrorView::StructuralError)
        } else {
            md_transform(
                children@[0],
                Some(
                    push_mark(
                        marks,
                        MarkView::Link {
                            href: decode_utf8(url@),
                            title: Some(decode_utf8(title@)),
                        },
                    ),
                ),
            )
        },
        MdNode::Image => Err(ConversionErrorView::UnsupportedFeature("image"@)),
        MdNode::HtmlBlock => Err(ConversionErrorView::UnsupportedFeature("html block"@)),
        MdNode::HtmlInline => Err(ConversionErrorView::UnsupportedFeature("html inline"@)),
        MdNode::FootnoteDefinition => Err(
            ConversionErrorView::UnsupportedFeature("footnote definition"@),
        ),
        MdNode::FootnoteReference => Err(
            ConversionErrorView::UnsupportedFeature("footnote reference"@),
        ),
        MdNode::DescriptionList => Err(
            ConversionErrorView::UnsupportedFeature("description list"@),
        ),
        MdNode::DescriptionItem => Err(
            ConversionErrorView::UnsupportedFeature("description item"@),
        ),
        MdNode::DescriptionTerm => Err(
            ConversionErrorView::UnsupportedFeature("description term"@),
        ),
        MdNode::DescriptionDetails => Err(
            ConversionErrorView::UnsupportedFeature("description details"@),
        ),
        MdNode::TaskItem => Err(ConversionErrorView::UnsupportedFeature("task item"@)),
        MdNode::FrontMatter => Err(ConversionErrorView::UnsupportedFeature("front matter"@)),
    }
}

/// A block node of the given kind, unless converting the children
/// failed.
pub open spec fn block_of(
    nodetype: BlockTypeView,
    children: Result<Seq<NodeView>, ConversionErrorView>,
) -> Result<NodeView, ConversionErrorView> {
    match children {
        Ok(cs) => Ok(NodeView::BlockNode { nodetype, content: cs }),
        Err(e) => Err(e),
    }
}

/// Converting a sequence of sibling nodes, each under an empty mark
/// accumulator; the first failure aborts the whole sequence.
pub open spec fn md_transform_seq(s: Seq<MdNode>) -> Result<Seq<NodeView>, ConversionErrorView>
    decreases s,
{
    if s.len() == 0 {
        Ok(Seq::empty())
    } else {
        match md_transform(s[0], None) {
            Err(e) => Err(e),
            Ok(n) => match md_transform_seq(s.drop_first()) {
                Err(e) => Err(e),
                Ok(rest) => Ok(seq![n] + rest),
            },
        }
    }
}

proof fn lemma_md_transform_seq_push(s: Seq<MdNode>, x: MdNode)
    ensures
        md_transform_seq(s.push(x)) == (match md_transform_seq(s) {
            Err(e) => Err::<Seq<NodeView>, ConversionErrorView>(e),
            Ok(ns) => match md_transform(x, None) {
                Err(e) => Err(e),
                Ok(n) => Ok(ns.push(n)),
            },
        }),
    decreases s,
{
    reveal_with_fuel(md_transform_seq, 2);
    if s.len() == 0 {
        assert(s.push(x)[0] == x);
        assert(s.push(x).drop_first() =~= Seq::<MdNode>::empty());
        if md_transform(x, None) is Ok {
            assert(seq![md_transform(x, None)->Ok_0] + Seq::<NodeView>::empty() =~= Seq::<
                NodeView,
            >::empty().push(md_transform(x, None)->Ok_0));
        }
    } else {
        assert(s.push(x)[0] == s[0]);
        assert(s.push(x).drop_first() =~= s.drop_first().push(x));
        lemma_md_transform_seq_push(s.drop_first(), x);
        if md_transform(s[0], None) is Ok && md_transform_seq(s.drop_first()) is Ok
            && md_transform(x, None) is Ok {
            let n0 = md_transform(s[0], None)->Ok_0;
            let rest = md_transform_seq(s.drop_first())->Ok_0;
            let n = md_transform(x, None)->Ok_0;
            assert(seq![n0] + rest.push(n) =~= (seq![n0] + rest).push(n));
        }
    }
}

proof fn lemma_md_transform_seq_abort(s: Seq<MdNode>, i: int)
    requires
        0 <= i < s.len(),
        md_transform_seq(s.take(i)) is Ok,
        md_transform(s[i], None) is Err,
    ensures
        md_transform_seq(s) == Err::<Seq<NodeView>, ConversionErrorView>(
            md_transform(s[i], None)->Err_0,
        ),
    decreases i,
{
    if i == 0 {
    } else {
        assert(s.take(i)[0] == s[0]);
        assert(s.take(i).drop_first() =~= s.drop_first().take(i - 1));
        assert(s.drop_first()[i - 1] == s[i]);
        lemma_md_transform_seq_abort(s.drop_first(), i - 1);
    }
}

/// Appends an element to an optional list, starting a fresh list when
/// there is none.  This is how the conversion grows its mark
/// accumulator.
pub fn append<T: Clone>(vec: Option<Vec<T>>, elem: T) -> (r: Vec<T>)
    ensures
        r@ == (match vec {
            Some(v) => v@.push(elem),
            None => seq![elem],
        }),
{
    match vec {
        Some(mut v) => {
            v.push(elem);
            v
        },
        None => {
            let mut v: Vec<T> = Vec::new();
            v.push(elem);
            v
        },
    }
}

proof fn lemma_marks_view_append(marks: Option<Vec<Mark>>, v: Vec<Mark>, x: Mark)
    requires
        v@ == (match marks {
            Some(v0) => v0@.push(x),
            None => seq![x],
        }),
    ensures
        marks_view(v@) == push_mark(opt_marks_view(marks), mark_view(x)),
{
    match marks {
        Some(v0) => {
            assert(marks_view(v@) =~= marks_view(v0@).push(mark_view(x)));
        },
        None => {
            assert(marks_view(v@) =~= seq![mark_view(x)]);
        },
    }
}

fn convert_children(children: &Vec<MdNode>) -> (r: Result<Vec<Node>, ConversionError>)
    ensures
        children_result_view(r) == md_transform_seq(children@),
    decreases children@,
{
    let mut out: Vec<Node> = Vec::new();
    let mut i: usize = 0;
    proof {
        assert(children@.take(0) =~= Seq::<MdNode>::empty());
    }
    while i < children.len()
        invariant
            i <= children@.len(),
            md_transform_seq(children@.take(i as int)) == Ok::<
                Seq<NodeView>,
                ConversionErrorView,
            >(nodes_view(out@)),
        decreases children@.len() - i,
    {
        match convert_node(&children[i], None) {
            Ok(n) => {
                proof {
                    lemma_md_transform_seq_push(children@.take(i as int), children@[i as int]);
                    assert(children@.take(i as int).push(children@[i as int]) =~= children@.take(
                        i as int + 1,
                    ));
                    lemma_nodes_view_push(out@, n);
                }
                out.push(n);
            },
            Err(e) => {
                proof {
                    lemma_md_transform_seq_abort(children@, i as int);
                }
                return Err(e);
            },
        }
        i += 1;
    }
    proof {
        assert(children@.take(children@.len() as int) =~= children@);
    }
    Ok(out)
}

/// Relies on std's `str::from_utf8`: it returns `Ok` exactly when the
/// bytes are a valid UTF-8 encoding, viewing those bytes as a string.
#[verifier::external_body]
fn utf8_view<'a>(bytes: &'a [u8]) -> (r: Option<&'a str>)
    ensures
        r is Some <==> valid_utf8(bytes@),
        r matches Some(s) ==> s@ == decode_utf8(bytes@),
{
    match std::str::from_utf8(bytes) {
        Ok(s) => Some(s),
        Err(_) => None,
    }
}

/// The bytes as an owned string, or nothing when they are not valid
/// text.
fn bytes_to_text(bytes: &Vec<u8>) -> (r: Option<String>)
    ensures
        r is Some <==> valid_utf8(bytes@),
        r matches Some(s) ==> s@ == decode_utf8(bytes@),
{
    match utf8_view(bytes.as_slice()) {
        Some(s) => Some(s.to_owned()),
        None => None,
    }
}

fn convert_node(m: &MdNode, marks: Option<Vec<Mark>>) -> (r: Result<Node, ConversionError>)
    ensures
        result_view(r) == md_transform(*m, opt_marks_view(marks)),
    decreases *m,
{
    let ghost marks0 = marks;
    match m {
        MdNode::Document { children } => match convert_children(children) {
            Ok(content) => Ok(
                Node::Root { version: 1, doctype: String::from_str("doc"), content },
            ),
            Err(e) => Err(e),
        },
        MdNode::BlockQuote { children } => match convert_children(children) {
            Ok(content) => Ok(
                Node::BlockNode { nodetype: BlockNodeType::BlockQuote, content },
            ),
            Err(e) => Err(e),
        },
        MdNode::List { ordered, children } => match convert_children(children) {
            Ok(content) => Ok(
                Node::BlockNode {
                    nodetype: if *ordered {
                        BlockNodeType::OrderedList
                    } else {
                        BlockNodeType::BulletList
                    },
                    content,
                },
            ),
            Err(e) => Err(e),
        },
        MdNode::Item { children } => match convert_children(children) {
            Ok(content) => Ok(Node::BlockNode { nodetype: BlockNodeType::ListItem, content }),
            Err(e) => Err(e),
        },
        MdNode::CodeBlock { info, children } => {
            let language = bytes_to_text(info);
            match convert_children(children) {
                Ok(content) => Ok(
                    Node::BlockNode { nodetype: BlockNodeType::CodeBlock { language }, content },
                ),
                Err(e) => Err(e),
            }
        },
        MdNode::Paragraph { children } => match convert_children(children) {
            Ok(content) => Ok(Node::BlockNode { nodetype: BlockNodeType::Paragraph, content }),
            Err(e) => Err(e),
        },
        MdNode::Heading { level, children } => match convert_children(children) {
            Ok(content) => Ok(
                Node::BlockNode { nodetype: BlockNodeType::Heading { level: *level }, content },
            ),
            Err(e) => Err(e),
        },
        MdNode::ThematicBreak => Ok(
            Node::BlockNode { nodetype: BlockNodeType::Rule, content: Vec::new() },
        ),
        MdNode::Table { children } => match convert_children(children) {
            Ok(content) => Ok(
                Node::BlockNode {
                    nodetype: BlockNodeType::Table {
                        is_number_column_enabled: false,
                        layout: TableLayout::Default,
                    },
                    content,
                },
            ),
            Err(e) => Err(e),
        },
        MdNode::TableRow { children } => match convert_children(children) {
            Ok(content) => Ok(Node::BlockNode { nodetype: BlockNodeType::TableRow, content }),
            Err(e) => Err(e),
        },
        MdNode::TableCell { children } => match convert_children(children) {
            Ok(content) => Ok(
                Node::BlockNode {
                    nodetype: BlockNodeType::TableCell {
                        background: String::from_str("#ffffff"),
                    },
                    content,
                },
            ),
            Err(e) => Err(e),
        },
        MdNode::Text { literal } => match bytes_to_text(literal) {
            Some(t) => Ok(
                Node::InlineNode { nodetype: InlineNodeType::Text, text: Some(t), marks },
            ),
            None => Err(ConversionError::InvalidText),
        },
        MdNode::SoftBreak => Ok(
            Node::InlineNode {
                nodetype: InlineNodeType::Text,
                text: Some(String::from_str(" ")),
                marks: None,
            },
        ),
        MdNode::LineBreak => Ok(
            Node::InlineNode { nodetype: InlineNodeType::HardBreak, text: None, marks: None },
        ),
        MdNode::Code { literal } => match bytes_to_text(literal) {
            Some(t) => {
                let code_marks = append(None, Mark::Code);
                proof {
                    lemma_marks_view_append(None, code_marks, Mark::Code);
                }
                Ok(
                    Node::InlineNode {
                        nodetype: InlineNodeType::Text,
                        text: Some(t),
                        marks: Some(code_marks),
                    },
                )
            },
            None => Err(ConversionError::InvalidText),
        },
        MdNode::Emph { children } => {
            let new_marks = append(marks, Mark::Em);
            proof {
                lemma_marks_view_append(marks0, new_marks, Mark::Em);
            }
            if children.len() == 0 {
                Err(ConversionError::StructuralError)
            } else {
                convert_node(&children[0], Some(new_marks))
            }
        },
        MdNode::Strong { children } => {
            let new_marks = append(marks, Mark::Strong);
            proof {
                lemma_marks_view_append(marks0, new_marks, Mark::Strong);
            }
            if children.len() == 0 {
                Err(ConversionError::StructuralError)
            } else {
                convert_node(&children[0], Some(new_marks))
            }
        },
        MdNode::Strikethrough { children } => {
            let new_marks = append(marks, Mark::Strike);
            proof {
                lemma_marks_view_append(marks0, new_marks, Mark::Strike);
            }
            if children.len() == 0 {
                Err(ConversionError::StructuralError)
            } else {
                convert_node(&children[0], Some(new_marks))
            }
        },
        MdNode::Superscript { children } => {
            let mark = Mark::Subsup { subsuptype: SubsupType::Sup };
            let ghost markg = mark;
            let new_marks = append(marks, mark);
            proof {
                lemma_marks_view_append(marks0, new_marks, markg);
            }
            if children.len() == 0 {
                Err(ConversionError::StructuralError)
            } else {
                convert_node(&children[0], Some(new_marks))
            }
        },
        MdNode::Link { url, title, children } => match bytes_to_text(url) {
            None => Err(ConversionError::InvalidText),
            Some(href) => match bytes_to_text(title) {
                None => Err(ConversionError::InvalidText),
                Some(t) => {
                    let mark = Mark::Link { href, title: Some(t) };
                    let ghost markg = mark;
                    let new_marks = append(marks, mark);
                    proof {
                        lemma_marks_view_append(marks0, new_marks, markg);
                    }
                    if children.len() == 0 {
                        Err(ConversionError::StructuralError)
                    } else {
                        convert_node(&children[0], Some(new_marks))
                    }
                },
            },
        },
        MdNode::Image => Err(ConversionError::UnsupportedFeature(String::from_str("image"))),
        MdNode::HtmlBlock => Err(
            ConversionError::UnsupportedFeature(String::from_str("html block")),
        ),
        MdNode::HtmlInline => Err(
            ConversionError::UnsupportedFeature(String::from_str("html inline")),
        ),
        MdNode::FootnoteDefinition => Err(
            ConversionError::UnsupportedFeature(String::from_str("footnote definition")),
        ),
        MdNode::FootnoteReference => Err(
            ConversionError::UnsupportedFeature(String::from_str("footnote reference")),
        ),
        MdNode::DescriptionList => Err(
            ConversionError::UnsupportedFeature(String::from_str("description list")),
        ),
        MdNode::DescriptionItem => Err(
            ConversionError::UnsupportedFeature(String::from_str("description item")),
        ),
        MdNode::DescriptionTerm => Err(
            ConversionError::UnsupportedFeature(String::from_str("description term")),
        ),
        MdNode::DescriptionDetails => Err(
            ConversionError::UnsupportedFeature(String::from_str("description details")),
        ),
        MdNode::TaskItem => Err(
            ConversionError::UnsupportedFeature(String::from_str("task item")),
        ),
        MdNode::FrontMatter => Err(
            ConversionError::UnsupportedFeature(String::from_str("front matter")),
        ),
    }
}

/// Converts a markdown syntax tree into the rich-document tree, with an
/// initially empty mark accumulator.  The result is exactly what
/// `md_transform` specifies; on failure no tree is produced.
pub fn markdown_to_adf(md: &MdNode) -> (r: Result<Node, ConversionError>)
    ensures
        result_view(r) == md_transform(*md, None::<Seq<MarkView>>),
{
    convert_node(md, None)
}

/// Every table block in the tree carries the fixed attributes the
/// conversion writes (number column disabled, default layout), and
/// every table cell the fixed white background.
pub open spec fn tables_fixed(t: NodeView) -> bool
    decreases t,
{
    match t {
        NodeView::BlockNode { nodetype, content } => {
            &&& (nodetype matches BlockTypeView::Table { is_number_column_enabled, layout }
                ==> is_number_column_enabled == false && layout == TableLayout::Default)
            &&& (nodetype matches BlockTypeView::TableCell { background } ==> background
                == "#ffffff"@)
            &&& forall|i: int| 0 <= i < content.len() ==> tables_fixed(#[trigger] content[i])
        },
        NodeView::Root { content, .. } => forall|i: int|
            0 <= i < content.len() ==> tables_fixed(#[trigger] content[i]),
        NodeView::InlineNode { .. } => true,
    }
}

/// Every inline node's marks, when present, are non-empty.
pub open spec fn marks_wf(t: NodeView) -> bool
    decreases t,
{
    match t {
        NodeView::BlockNode { content, .. } => forall|i: int|
            0 <= i < content.len() ==> marks_wf(#[trigger] content[i]),
        NodeView::Root { content, .. } => forall|i: int|
            0 <= i < content.len() ==> marks_wf(#[trigger] content[i]),
        NodeView::InlineNode { marks, .. } => marks matches Some(ms) ==> ms.len() > 0,
    }
}

/// Whatever the source table or cell held, a successful conversion
/// writes only tables with the fixed attributes and cells with the
/// fixed background.
pub proof fn lemma_transform_tables_fixed(m: MdNode, marks: Option<Seq<MarkView>>)
    ensures
        md_transform(m, marks) matches Ok(t) ==> tables_fixed(t),
    decreases m,
{
    match m {
        MdNode::Document { children } => lemma_transform_seq_tables_fixed(children@),
        MdNode::BlockQuote { children } => lemma_transform_seq_tables_fixed(children@),
        MdNode::List { children, .. } => lemma_transform_seq_tables_fixed(children@),
        MdNode::Item { children } => lemma_transform_seq_tables_fixed(children@),
        MdNode::CodeBlock { children, .. } => lemma_transform_seq_tables_fixed(children@),
        MdNode::Paragraph { children } => lemma_transform_seq_tables_fixed(children@),
        MdNode::Heading { children, .. } => lemma_transform_seq_tables_fixed(children@),
        MdNode::Table { children } => lemma_transform_seq_tables_fixed(children@),
        MdNode::TableRow { children } => lemma_transform_seq_tables_fixed(children@),
        MdNode::TableCell { children } => lemma_transform_seq_tables_fixed(children@),
        MdNode::Emph { children } => {
            if children@.len() > 0 {
                lemma_transform_tables_fixed(
                    children@[0],
                    Some(push_mark(marks, MarkView::Em)),
                );
            }
        },
        MdNode::Strong { children } => {
            if children@.len() > 0 {
                lemma_transform_tables_fixed(
                    children@[0],
                    Some(push_mark(marks, MarkView::Strong)),
                );
            }
        },
        MdNode::Strikethrough { children } => {
            if children@.len() > 0 {
                lemma_transform_tables_fixed(
                    children@[0],
                    Some(push_mark(marks, MarkView::Strike)),
                );
            }
        },
        MdNode::Superscript { children } => {
            if children@.len() > 0 {
                lemma_transform_tables_fixed(
                    children@[0],
                    Some(push_mark(marks, MarkView::Subsup { subsuptype: SubsupType::Sup })),
                );
            }
        },
        MdNode::Link { url, title, children } => {
            if children@.len() > 0 {
                lemma_transform_tables_fixed(
                    children@[0],
                    Some(
                        push_mark(
                            marks,
                            MarkView::Link {
                                href: decode_utf8(url@),
                                title: Some(decode_utf8(title@)),
                            },
                        ),
                    ),
                );
            }
        },
        _ => {},
    }
}

proof fn lemma_transform_seq_tables_fixed(s: Seq<MdNode>)
    ensures
        md_transform_seq(s) matches Ok(ts) ==> forall|i: int|
            0 <= i < ts.len() ==> tables_fixed(#[trigger] ts[i]),
    decreases s,
{
    if s.len() > 0 {
        lemma_transform_tables_fixed(s[0], None);
        lemma_transform_seq_tables_fixed(s.drop_first());
        if md_transform_seq(s) is Ok {
            let ts = md_transform_seq(s)->Ok_0;
            let rest = md_transform_seq(s.drop_first())->Ok_0;
            assert forall|i: int| 0 <= i < ts.len() implies tables_fixed(#[trigger] ts[i]) by {
                if i > 0 {
                    assert(ts[i] == rest[i - 1]);
                }
            }
        }
    }
}

/// Marks are accumulated by appending, so any accumulator handed down
/// is non-empty, and any marks materialized at a leaf are non-empty.
pub proof fn lemma_transform_marks_nonempty(m: MdNode, marks: Option<Seq<MarkView>>)
    requires
        marks matches Some(s) ==> s.len() > 0,
    ensures
        md_transform(m, marks) matches Ok(t) ==> marks_wf(t),
    decreases m,
{
    match m {
        MdNode::Document { children } => lemma_transform_seq_marks_nonempty(children@),
        MdNode::BlockQuote { children } => lemma_transform_seq_marks_nonempty(children@),
        MdNode::List { children, .. } => lemma_transform_seq_marks_nonempty(children@),
        MdNode::Item { children } => lemma_transform_seq_marks_nonempty(children@),
        MdNode::CodeBlock { children, .. } => lemma_transform_seq_marks_nonempty(children@),
        MdNode::Paragraph { children } => lemma_transform_seq_marks_nonempty(children@),
        MdNode::Heading { children, .. } => lemma_transform_seq_marks_nonempty(children@),
        MdNode::Table { children } => lemma_transform_seq_marks_nonempty(children@),
        MdNode::TableRow { children } => lemma_transform_seq_marks_nonempty(children@),
        MdNode::TableCell { children } => lemma_transform_seq_marks_nonempty(children@),
        MdNode::Emph { children } => {
            if children@.len() > 0 {
                lemma_transform_marks_nonempty(
                    children@[0],
                    Some(push_mark(marks, MarkView::Em)),
                );
            }
        },
        MdNode::Strong { children } => {
            if children@.len() > 0 {
                lemma_transform_marks_nonempty(
                    children@[0],
                    Some(push_mark(marks, MarkView::Strong)),
                );
            }
        },
        MdNode::Strikethrough { children } => {
            if children@.len() > 0 {
                lemma_transform_marks_nonempty(
                    children@[0],
                    Some(push_mark(marks, MarkView::Strike)),
                );
            }
        },
        MdNode::Superscript { children } => {
            if children@.len() > 0 {
                lemma_transform_marks_nonempty(
                    children@[0],
                    Some(push_mark(marks, MarkView::Subsup { subsuptype: SubsupType::Sup })),
                );
            }
        },
        MdNode::Link { url, title, children } => {
            if children@.len() > 0 {
                lemma_transform_marks_nonempty(
                    children@[0],
                    Some(
                        push_mark(
                            marks,
                            MarkView::Link {
                                href: decode_utf8(url@),
                                title: Some(decode_utf8(title@)),
                            },
                        ),
                    ),
                );
            }
        },
        _ => {},
    }
}

proof fn lemma_transform_seq_marks_nonempty(s: Seq<MdNode>)
    ensures
        md_transform_seq(s) matches Ok(ts) ==> forall|i: int|
            0 <= i < ts.len() ==> marks_wf(#[trigger] ts[i]),
    decreases s,
{
    if s.len() > 0 {
        lemma_transform_marks_nonempty(s[0], None);
        lemma_transform_seq_marks_nonempty(s.drop_first());
        if md_transform_seq(s) is Ok {
            let ts = md_transform_seq(s)->Ok_0;
            let rest = md_transform_seq(s.drop_first())->Ok_0;
            assert forall|i: int| 0 <= i < ts.len() implies marks_wf(#[trigger] ts[i]) by {
                if i > 0 {
                    assert(ts[i] == rest[i - 1]);
                }
            }
        }
    }
}

/// No document node occurs in the tree: the property of every proper
/// subtree of a markdown document.
pub open spec fn md_document_free(m: MdNode) -> bool
    decreases m,
{
    match m {
        MdNode::Document { .. } => false,
        MdNode::BlockQuote { children } => md_seq_document_free(children@),
        MdNode::List { children, .. } => md_seq_document_free(children@),
        MdNode::Item { children } => md_seq_document_free(children@),
        MdNode::CodeBlock { children, .. } => md_seq_document_free(children@),
        MdNode::Paragraph { children } => md_seq_document_free(children@),
        MdNode::Heading { children, .. } => md_seq_document_free(children@),
        MdNode::Table { children } => md_seq_document_free(children@),
        MdNode::TableRow { children } => md_seq_document_free(children@),
        MdNode::TableCell { children } => md_seq_document_free(children@),
        MdNode::Emph { children } => md_seq_document_free(children@),
        MdNode::Strong { children } => md_seq_document_free(children@),
        MdNode::Strikethrough { children } => md_seq_document_free(children@),
        MdNode::Superscript { children } => md_seq_document_free(children@),
        MdNode::Link { children, .. } => md_seq_document_free(children@),
        _ => true,
    }
}

pub open spec fn md_seq_document_free(s: Seq<MdNode>) -> bool
    decreases s,
{
    forall|i: int| 0 <= i < s.len() ==> md_document_free(#[trigger] s[i])
}

/// No root node occurs in the tree.
pub open spec fn root_free(t: NodeView) -> bool
    decreases t,
{
    match t {
        NodeView::Root { .. } => false,
        NodeView::BlockNode { content, .. } => forall|i: int|
            0 <= i < content.len() ==> root_free(#[trigger] content[i]),
        NodeView::InlineNode { .. } => true,
    }
}

/// A markdown document converts to exactly one root: the document node
/// itself becomes the root, carrying the fixed version and document
/// type, and when no document node occurs below it, no root occurs
/// below the converted root either.
pub proof fn lemma_single_root(m: MdNode)
    requires
        m matches MdNode::Document { children } && md_seq_document_free(children@),
    ensures
        md_transform(m, None::<Seq<MarkView>>) matches Ok(t) ==> (t matches NodeView::Root {
            version,
            doctype,
            content,
        } && version == 1 && doctype == "doc"@ && (forall|i: int|
            0 <= i < content.len() ==> root_free(#[trigger] content[i]))),
{
    lemma_transform_seq_root_free(m->Document_children@);
}

proof fn lemma_transform_root_free(m: MdNode, marks: Option<Seq<MarkView>>)
    requires
        md_document_free(m),
    ensures
        md_transform(m, marks) matches Ok(t) ==> root_free(t),
    decreases m,
{
    match m {
        MdNode::BlockQuote { children } => lemma_transform_seq_root_free(children@),
        MdNode::List { children, .. } => lemma_transform_seq_root_free(children@),
        MdNode::Item { children } => lemma_transform_seq_root_free(children@),
        MdNode::CodeBlock { children, .. } => lemma_transform_seq_root_free(children@),
        MdNode::Paragraph { children } => lemma_transform_seq_root_free(children@),
        MdNode::Heading { children, .. } => lemma_transform_seq_root_free(children@),
        MdNode::Table { children } => lemma_transform_seq_root_free(children@),
        MdNode::TableRow { children } => lemma_transform_seq_root_free(children@),
        MdNode::TableCell { children } => lemma_transform_seq_root_free(children@),
        MdNode::Emph { children } => {
            if children@.len() > 0 {
                lemma_transform_root_free(children@[0], Some(push_mark(marks, MarkView::Em)));
            }
        },
        MdNode::Strong { children } => {
            if children@.len() > 0 {
                lemma_transform_root_free(
                    children@[0],
                    Some(push_mark(marks, MarkView::Strong)),
                );
            }
        },
        MdNode::Strikethrough { children } => {
            if children@.len() > 0 {
                lemma_transform_root_free(
                    children@[0],
                    Some(push_mark(marks, MarkView::Strike)),
                );
            }
        },
        MdNode::Superscript { children } => {
            if children@.len() > 0 {
                lemma_transform_root_free(
                    children@[0],
                    Some(push_mark(marks, MarkView::Subsup { subsuptype: SubsupType::Sup })),
                );
            }
        },
        MdNode::Link { url, title, children } => {
            if children@.len() > 0 {
                lemma_transform_root_free(
                    children@[0],
                    Some(
                        push_mark(
                            marks,
                            MarkView::Link {
                                href: decode_utf8(url@),
                                title: Some(decode_utf8(title@)),
                            },
                        ),
                    ),
                );
            }
        },
        _ => {},
    }
}

proof fn lemma_transform_seq_root_free(s: Seq<MdNode>)
    requires
        md_seq_document_free(s),
    ensures
        md_transform_seq(s) matches Ok(ts) ==> forall|i: int|
            0 <= i < ts.len() ==> root_free(#[trigger] ts[i]),
    decreases s,
{
    if s.len() > 0 {
        lemma_transform_root_free(s[0], None);
        assert(md_seq_document_free(s.drop_first())) by {
            assert(forall|i: int|
                0 <= i < s.drop_first().len() ==> #[trigger] s.drop_first()[i] == s[i + 1]);
        }
        lemma_transform_seq_root_free(s.drop_first());
        if md_transform_seq(s) is Ok {
            let ts = md_transform_seq(s)->Ok_0;
            let rest = md_transform_seq(s.drop_first())->Ok_0;
            assert forall|i: int| 0 <= i < ts.len() implies root_free(#[trigger] ts[i]) by {
                if i > 0 {
                    assert(ts[i] == rest[i - 1]);
                }
            }
        }
    }
}

/// A node somewhere in a tree all of whose tables and cells carry the
/// fixed attributes itself carries them, wherever it sits.
pub proof fn lemma_tables_fixed_hereditary(t: NodeView, sub: NodeView)
    requires
        tables_fixed(t),
        crate::doc::node_in(t, sub),
    ensures
        tables_fixed(sub),
    decreases t,
{
    if sub != t {
        match t {
            NodeView::BlockNode { content, .. } => {
                let i = choose|i: int|
                    0 <= i < content.len() && crate::doc::node_in(#[trigger] content[i], sub);
                lemma_tables_fixed_hereditary(content[i], sub);
            },
            NodeView::Root { content, .. } => {
                let i = choose|i: int|
                    0 <= i < content.len() && crate::doc::node_in(#[trigger] content[i], sub);
                lemma_tables_fixed_hereditary(content[i], sub);
            },
            NodeView::InlineNode { .. } => {},
        }
    }
}

/// The conversion has no hidden state: its result is a function of the
/// input tree alone, so converting the same tree twice yields
/// structurally identical results.
pub proof fn lemma_convert_deterministic(
    r1: Result<Node, ConversionError>,
    r2: Result<Node, ConversionError>,
    m: MdNode,
)
    requires
        result_view(r1) == md_transform(m, None::<Seq<MarkView>>),
        result_view(r2) == md_transform(m, None::<Seq<MarkView>>),
    ensures
        result_view(r1) == result_view(r2),
{
}

} // verus!

