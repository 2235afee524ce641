//! The markdown abstract syntax tree that conversions start from.
//!
//! A CommonMark parser is an external collaborator: whatever parser the
//! surrounding tool uses, it hands the library a tree of `MdNode` values
//! holding the node kind, the ordered children and the node-specific
//! payload (heading level, code-fence info string, link target and
//! title, raw text bytes).  Text payloads are kept as the parser's raw
//! bytes; deciding whether they are valid text is the converter's job.

use vstd::prelude::*;

verus! {

/// One node of the markdown abstract syntax tree.
#[derive(Debug, PartialEq, Eq)]
pub enum MdNode {
    Document { children: Vec<MdNode> },
    BlockQuote { children: Vec<MdNode> },
    /// A list; `ordered` is the source list's marker style.
    List { ordered: bool, children: Vec<MdNode> },
    Item { children: Vec<MdNode> },
    /// A code block; `info` holds the raw bytes of the entire fence info
    /// string.
    CodeBlock { info: Vec<u8>, children: Vec<MdNode> },
    Paragraph { children: Vec<MdNode> },
    Heading { level: u32, children: Vec<MdNode> },
    ThematicBreak,
    Table { children: Vec<MdNode> },
    TableRow { children: Vec<MdNode> },
    TableCell { children: Vec<MdNode> },
    /// Literal text; `literal` holds the raw bytes.
    Text { literal: Vec<u8> },
    SoftBreak,
    LineBreak,
    /// An inline code span; `literal` holds the raw bytes.
    Code { literal: Vec<u8> },
    Emph { children: Vec<MdNode> },
    Strong { children: Vec<MdNode> },
    Strikethrough { children: Vec<MdNode> },
    Superscript { children: Vec<MdNode> },
    /// A link; `url` and `title` hold the raw bytes of the target and of
    /// the (possibly empty) title.
    Link { url: Vec<u8>, title: Vec<u8>, children: Vec<MdNode> },
    Image,
    HtmlBlock,
    HtmlInline,
    FootnoteDefinition,
    FootnoteReference,
    DescriptionList,
    DescriptionItem,
    DescriptionTerm,
    DescriptionDetails,
    TaskItem,
    FrontMatter,
}

} // verus!
