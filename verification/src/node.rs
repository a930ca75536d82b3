//! The document tree that the rule passes rewrite.
//!
//! A `Node` carries a closed set of variants (`NodeKind`), an ordered list of
//! child nodes and an ordered attribute list.  Passes replace a node's variant
//! while keeping its children and attributes unless stated otherwise.
use vstd::prelude::*;

use crate::emphasis::{Highlighted, RedColored, Underlined};
use crate::link_with_target::{LinkWithTarget, LinkWithTargetView};
use crate::table_of_contents::{ToCElementView, ToCList};

verus! {

/// Column alignment of a table, as recorded by the table variant.
#[derive(Clone, Copy, PartialEq, Eq, Structural, Debug)]
pub enum ColumnAlignment {
    Unaligned,
    Left,
    Right,
    Center,
}

/// The closed set of node variants that the passes and the renderer know.
pub enum NodeKind {
    Root,
    Paragraph,
    Heading { level: u8 },
    PlainTextElement { text: String },
    Blockquote,
    BulletList { marker: char },
    OrderedList { start: u32, marker: char },
    ListItem,
    CodeBlock { content: String },
    CodeFence { content: String, class: Option<String> },
    ThematicBreak,
    Text { content: String },
    HtmlInline { content: String },
    HtmlBlock { content: String },
    Hardbreak,
    Softbreak,
    Em { marker: char },
    Strong { marker: char },
    CodeInline { marker: char },
    Strikethrough { marker: char },
    Link { url: String, title: Option<String> },
    Autolink { url: String },
    Linkified { url: String },
    AnnotatedLink { link: LinkWithTarget },
    Highlighted { hl: Highlighted },
    RedColored { red: RedColored },
    Underlined { und: Underlined },
    Table { alignments: Vec<ColumnAlignment> },
    TableHead,
    TableBody,
    TableRow,
    TableCell,
    ToCList { list: ToCList },
}

/// One element of the document tree.
pub struct Node {
    pub kind: NodeKind,
    pub children: Vec<Node>,
    pub attrs: Vec<(String, String)>,
}

/// Mathematical model of a `NodeKind`: strings become character sequences.
#[verifier::ext_equal]
pub ghost enum NodeKindView {
    Root,
    Paragraph,
    Heading { level: u8 },
    PlainTextElement { text: Seq<char> },
    Blockquote,
    BulletList { marker: char },
    OrderedList { start: u32, marker: char },
    ListItem,
    CodeBlock { content: Seq<char> },
    CodeFence { content: Seq<char>, class: Option<Seq<char>> },
    ThematicBreak,
    Text { content: Seq<char> },
    HtmlInline { content: Seq<char> },
    HtmlBlock { content: Seq<char> },
    Hardbreak,
    Softbreak,
    Em { marker: char },
    Strong { marker: char },
    CodeInline { marker: char },
    Strikethrough { marker: char },
    Link { url: Seq<char>, title: Option<Seq<char>> },
    Autolink { url: Seq<char> },
    Linkified { url: Seq<char> },
    AnnotatedLink { link: LinkWithTargetView },
    Highlighted { marker: char },
    RedColored { marker: char },
    Underlined { marker: char },
    Table { alignments: Seq<ColumnAlignment> },
    TableHead,
    TableBody,
    TableRow,
    TableCell,
    ToCList { elements: Seq<ToCElementView> },
}

/// Mathematical model of a `Node`.
#[verifier::ext_equal]
pub ghost struct NodeView {
    pub kind: NodeKindView,
    pub children: Seq<NodeView>,
    pub attrs: Seq<(Seq<char>, Seq<char>)>,
}

/// Model of an optional string.
pub open spec fn opt_str_view(o: Option<String>) -> Option<Seq<char>> {
    match o {
        Some(s) => Some(s@),
        None => None,
    }
}

/// Model of an attribute list.
pub open spec fn attrs_view(attrs: Seq<(String, String)>) -> Seq<(Seq<char>, Seq<char>)> {
    Seq::new(attrs.len(), |i: int| (attrs[i].0@, attrs[i].1@))
}

/// Model of a node variant.
pub open spec fn kind_view(k: NodeKind) -> NodeKindView {
    match k {
        NodeKind::Root => NodeKindView::Root,
        NodeKind::Paragraph => NodeKindView::Paragraph,
        NodeKind::Heading { level } => NodeKindView::Heading { level },
        NodeKind::PlainTextElement { text } => NodeKindView::PlainTextElement { text: text@ },
        NodeKind::Blockquote => NodeKindView::Blockquote,
        NodeKind::BulletList { marker } => NodeKindView::BulletList { marker },
        NodeKind::OrderedList { start, marker } => NodeKindView::OrderedList { start, marker },
        NodeKind::ListItem => NodeKindView::ListItem,
        NodeKind::CodeBlock { content } => NodeKindView::CodeBlock { content: content@ },
        NodeKind::CodeFence { content, class } => NodeKindView::CodeFence {
            content: content@,
            class: opt_str_view(class),
        },
        NodeKind::ThematicBreak => NodeKindView::ThematicBreak,
        NodeKind::Text { content } => NodeKindView::Text { content: content@ },
        NodeKind::HtmlInline { content } => NodeKindView::HtmlInline { content: content@ },
        NodeKind::HtmlBlock { content } => NodeKindView::HtmlBlock { content: content@ },
        NodeKind::Hardbreak => NodeKindView::Hardbreak,
        NodeKind::Softbreak => NodeKindView::Softbreak,
        NodeKind::Em { marker } => NodeKindView::Em { marker },
        NodeKind::Strong { marker } => NodeKindView::Strong { marker },
        NodeKind::CodeInline { marker } => NodeKindView::CodeInline { marker },
        NodeKind::Strikethrough { marker } => NodeKindView::Strikethrough { marker },
        NodeKind::Link { url, title } => NodeKindView::Link {
            url: url@,
            title: opt_str_view(title),
        },
        NodeKind::Autolink { url } => NodeKindView::Autolink { url: url@ },
        NodeKind::Linkified { url } => NodeKindView::Linkified { url: url@ },
        NodeKind::AnnotatedLink { link } => NodeKindView::AnnotatedLink { link: link@ },
        NodeKind::Highlighted { hl } => NodeKindView::Highlighted { marker: hl.marker },
        NodeKind::RedColored { red } => NodeKindView::RedColored { marker: red.marker },
        NodeKind::Underlined { und } => NodeKindView::Underlined { marker: und.marker },
        NodeKind::Table { alignments } => NodeKindView::Table { alignments: alignments@ },
        NodeKind::TableHead => NodeKindView::TableHead,
        NodeKind::TableBody => NodeKindView::TableBody,
        NodeKind::TableRow => NodeKindView::TableRow,
        NodeKind::TableCell => NodeKindView::TableCell,
        NodeKind::ToCList { list } => NodeKindView::ToCList { elements: list@ },
    }
}

/// The model of a node with no content, used outside a child index range.
pub open spec fn empty_node_view() -> NodeView {
    NodeView { kind: NodeKindView::Root, children: Seq::empty(), attrs: Seq::empty() }
}

/// Model of a whole node, children included.
pub open spec fn node_view(n: Node) -> NodeView
    decreases n,
{
    NodeView {
        kind: kind_view(n.kind),
        children: Seq::new(
            n.children@.len(),
            |i: int|
                if 0 <= i < n.children@.len() {
                    node_view(n.children@[i])
                } else {
                    empty_node_view()
                },
        ),
        attrs: attrs_view(n.attrs@),
    }
}

impl View for Node {
    type V = NodeView;

    open spec fn view(&self) -> NodeView {
        node_view(*self)
    }
}

impl View for NodeKind {
    type V = NodeKindView;

    open spec fn view(&self) -> NodeKindView {
        kind_view(*self)
    }
}

impl Node {
    /// A fresh node of the given variant, with no children and no attributes.
    pub fn new(kind: NodeKind) -> (r: Node)
        ensures
            r@.kind == kind@,
            r@.children == Seq::<NodeView>::empty(),
            r@.attrs == Seq::<(Seq<char>, Seq<char>)>::empty(),
    {
        let n = Node { kind, children: Vec::new(), attrs: Vec::new() };
        proof {
            assert(n@.children =~= Seq::<NodeView>::empty());
            assert(n@.attrs =~= Seq::<(Seq<char>, Seq<char>)>::empty());
        }
        n
    }
}

/// The models of a sequence of nodes.
pub open spec fn nodes_view(s: Seq<Node>) -> Seq<NodeView> {
    Seq::new(s.len(), |i: int| s[i]@)
}

/// The components of a node's model are the models of its components.
pub proof fn lemma_node_view(n: Node)
    ensures
        n@.kind == n.kind@,
        n@.children.len() == n.children@.len(),
        forall|i: int|
            0 <= i < n.children@.len() ==> n@.children[i] == #[trigger] n.children@[i]@,
        n@.attrs.len() == n.attrs@.len(),
        forall|i: int|
            0 <= i < n.attrs@.len() ==> n@.attrs[i] == (
            #[trigger] n.attrs@[i].0@,
            n.attrs@[i].1@,
            ),
{
}

} // verus!
