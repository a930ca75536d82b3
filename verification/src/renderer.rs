//! The HTML renderer over the document tree.
//!
//! Tags and attributes are written character for character: attribute names
//! and values are HTML-escaped, line breaks merge (a break writes nothing
//! when the buffer already ends with one), and table cells take their tag
//! and alignment from the enclosing table context.
use vstd::prelude::*;
use vstd::string::StrSliceExecFns;
use vstd::string::StringExecFns;

use crate::link_with_target::LinkWithTargetView;
use crate::node::{attrs_view, lemma_node_view, ColumnAlignment, Node, NodeKind, NodeKindView,
    NodeView};
use crate::table_of_contents::ToCElementView;
use crate::text::{dec_digits, escape_into, escaped, nulls_replaced, push_char, replace_nulls,
    usize_to_dec};

verus! {

/// The renderer's model: the output so far and the table context.
#[verifier::ext_equal]
pub ghost struct RenderState {
    pub out: Seq<char>,
    pub head: bool,
    pub index: int,
    pub aligns: Seq<ColumnAlignment>,
}

/// One rendered attribute: a space, the escaped name, `="`, the escaped
/// value, and a closing quote.
pub open spec fn attr_rendered(a: (Seq<char>, Seq<char>)) -> Seq<char> {
    seq![' '] + escaped(a.0) + seq!['=', '"'] + escaped(a.1) + seq!['"']
}

/// An attribute list rendered in order.
pub open spec fn attrs_rendered(attrs: Seq<(Seq<char>, Seq<char>)>) -> Seq<char>
    decreases attrs.len(),
{
    if attrs.len() == 0 {
        Seq::empty()
    } else {
        attrs_rendered(attrs.drop_last()) + attr_rendered(attrs.last())
    }
}

/// An opening tag with its attributes.
pub open spec fn open_tag(tag: Seq<char>, attrs: Seq<(Seq<char>, Seq<char>)>) -> Seq<char> {
    seq!['<'] + tag + attrs_rendered(attrs) + seq!['>']
}

/// A closing tag.
pub open spec fn close_tag(tag: Seq<char>) -> Seq<char> {
    seq!['<', '/'] + tag + seq!['>']
}

/// The buffer after a line break: a newline is added only when the buffer is
/// neither empty nor already ending with one.
pub open spec fn with_cr(out: Seq<char>) -> Seq<char> {
    if out.len() == 0 || out.last() == '\n' {
        out
    } else {
        out + seq!['\n']
    }
}

/// The HTML renderer: an output buffer and the table context.
pub struct HtmlRenderer {
    result: String,
    head: bool,
    index: usize,
    aligns: Vec<ColumnAlignment>,
}

impl HtmlRenderer {
    /// The renderer's model.
    pub closed spec fn st(&self) -> RenderState {
        RenderState {
            out: self.result@,
            head: self.head,
            index: self.index as int,
            aligns: self.aligns@,
        }
    }

    /// A renderer with an empty buffer and a fresh table context.
    pub fn new() -> (r: Self)
        ensures
            r.st() == (RenderState {
                out: Seq::empty(),
                head: false,
                index: 0,
                aligns: Seq::empty(),
            }),
    {
        let r = HtmlRenderer { result: String::new(), head: false, index: 0, aligns: Vec::new() };
        proof {
            assert(r.st() =~= (RenderState {
                out: Seq::empty(),
                head: false,
                index: 0,
                aligns: Seq::empty(),
            }));
        }
        r
    }

    /// The collected output.
    pub fn into_string(self) -> (r: String)
        ensures
            r@ == self.st().out,
    {
        self.result
    }

    /// Writes ` name="value"` for each attribute, in order, escaping both.
    #[verifier::loop_isolation(false)]
    fn make_attrs(&mut self, attrs: &Vec<(String, String)>)
        ensures
            final(self).st() == (RenderState {
                out: old(self).st().out + attrs_rendered(attrs_view(attrs@)),
                ..old(self).st()
            }),
    {
        let count = attrs.len();
        let mut i: usize = 0;
        proof {
            assert(attrs_view(attrs@).subrange(0, 0) =~= Seq::<(Seq<char>, Seq<char>)>::empty());
            assert(self.st().out =~= old(self).st().out + attrs_rendered(
                attrs_view(attrs@).subrange(0, 0),
            ));
        }
        while i < count
            invariant
                i <= count,
                count == attrs@.len(),
                self.head == old(self).head,
                self.index == old(self).index,
                self.aligns == old(self).aligns,
                self.st().out == old(self).st().out + attrs_rendered(
                    attrs_view(attrs@).subrange(0, i as int),
                ),
            decreases count - i,
        {
            push_char(&mut self.result, ' ');
            escape_into(attrs[i].0.as_str(), &mut self.result);
            push_char(&mut self.result, '=');
            push_char(&mut self.result, '"');
            escape_into(attrs[i].1.as_str(), &mut self.result);
            push_char(&mut self.result, '"');
            proof {
                let av = attrs_view(attrs@);
                assert(av.subrange(0, i as int + 1).drop_last() =~= av.subrange(0, i as int));
                assert(av.subrange(0, i as int + 1).last() == av[i as int]);
                assert(av[i as int] == (attrs@[i as int].0@, attrs@[i as int].1@));
                assert(self.st().out =~= old(self).st().out + attrs_rendered(
                    av.subrange(0, i as int + 1),
                ));
            }
            i = i + 1;
        }
        proof {
            assert(attrs_view(attrs@).subrange(0, count as int) =~= attrs_view(attrs@));
            assert(final(self).st() =~= (RenderState {
                out: old(self).st().out + attrs_rendered(attrs_view(attrs@)),
                ..old(self).st()
            }));
        }
    }

    /// Writes an opening tag with attributes.
    fn open(&mut self, tag: &str, attrs: &Vec<(String, String)>)
        ensures
            final(self).st() == (RenderState {
                out: old(self).st().out + open_tag(tag@, attrs_view(attrs@)),
                ..old(self).st()
            }),
    {
        push_char(&mut self.result, '<');
        self.result.append(tag);
        self.make_attrs(attrs);
        push_char(&mut self.result, '>');
        proof {
            assert(final(self).st() =~= (RenderState {
                out: old(self).st().out + open_tag(tag@, attrs_view(attrs@)),
                ..old(self).st()
            }));
        }
    }

    /// Writes a closing tag.
    fn close(&mut self, tag: &str)
        ensures
            final(self).st() == (RenderState {
                out: old(self).st().out + close_tag(tag@),
                ..old(self).st()
            }),
    {
        push_char(&mut self.result, '<');
        push_char(&mut self.result, '/');
        self.result.append(tag);
        push_char(&mut self.result, '>');
        proof {
            assert(final(self).st() =~= (RenderState {
                out: old(self).st().out + close_tag(tag@),
                ..old(self).st()
            }));
        }
    }

    /// Writes escaped text.
    fn text(&mut self, s: &str)
        ensures
            final(self).st() == (RenderState {
                out: old(self).st().out + escaped(s@),
                ..old(self).st()
            }),
    {
        escape_into(s, &mut self.result);
        proof {
            assert(final(self).st() =~= (RenderState {
                out: old(self).st().out + escaped(s@),
                ..old(self).st()
            }));
        }
    }

    /// Writes raw text, unescaped.
    fn text_raw(&mut self, s: &str)
        ensures
            final(self).st() == (RenderState {
                out: old(self).st().out + s@,
                ..old(self).st()
            }),
    {
        self.result.append(s);
        proof {
            assert(final(self).st() =~= (RenderState {
                out: old(self).st().out + s@,
                ..old(self).st()
            }));
        }
    }

    /// Writes a line break unless the buffer is empty or already ends with
    /// one.
    fn cr(&mut self)
        ensures
            final(self).st() == (RenderState { out: with_cr(old(self).st().out), ..old(self).st() }),
    {
        let len = self.result.as_str().unicode_len();
        if len > 0 {
            let last = self.result.as_str().get_char(len - 1);
            if last != '\n' {
                push_char(&mut self.result, '\n');
            }
        }
        proof {
            assert(final(self).st() =~= (RenderState {
                out: with_cr(old(self).st().out),
                ..old(self).st()
            }));
        }
    }
}

/// The tag of a heading of the given level.
pub open spec fn htag(level: u8) -> Seq<char> {
    "h"@ + dec_digits(level as nat)
}

/// The style attribute a cell takes from the column alignment under the
/// running index; none when the column is unaligned or the index is past the
/// alignment list.
pub open spec fn align_attrs(aligns: Seq<ColumnAlignment>, index: int) -> Seq<
    (Seq<char>, Seq<char>),
> {
    if 0 <= index < aligns.len() {
        match aligns[index] {
            ColumnAlignment::Unaligned => Seq::empty(),
            ColumnAlignment::Left => seq![("style"@, "text-align:left"@)],
            ColumnAlignment::Right => seq![("style"@, "text-align:right"@)],
            ColumnAlignment::Center => seq![("style"@, "text-align:center"@)],
        }
    } else {
        Seq::empty()
    }
}

/// The running column index after one cell: it advances while alignments
/// remain and stays put past the end of the list.
pub open spec fn next_index(aligns: Seq<ColumnAlignment>, index: int) -> int {
    if index < aligns.len() {
        index + 1
    } else {
        index
    }
}

/// The attribute list of a rendered annotated link: the node attributes,
/// `href`, then `target` and `rel` when present, then the title.
pub open spec fn link_attrs(
    link: LinkWithTargetView,
    attrs: Seq<(Seq<char>, Seq<char>)>,
) -> Seq<(Seq<char>, Seq<char>)> {
    let a1 = attrs.push(("href"@, link.url));
    let a2 = match link.target {
        Some(t) => a1.push(("target"@, t)),
        None => a1,
    };
    let a3 = match link.rel {
        Some(t) => a2.push(("rel"@, t)),
        None => a2,
    };
    match link.title {
        Some(t) => a3.push(("title"@, t)),
        None => a3,
    }
}

/// The attributes of one ToC anchor: the fragment link to its id and a
/// level-indicating class.
pub open spec fn toc_anchor_attrs(e: ToCElementView) -> Seq<(Seq<char>, Seq<char>)> {
    seq![("href"@, "#"@ + e.id), ("class"@, "toc-level-"@ + dec_digits(e.level as nat))]
}

/// The buffer after the ToC entries are written, one list item per entry.
pub open spec fn rendered_toc_items(
    elements: Seq<ToCElementView>,
    attrs: Seq<(Seq<char>, Seq<char>)>,
    out: Seq<char>,
) -> Seq<char>
    decreases elements.len(),
{
    if elements.len() == 0 {
        out
    } else {
        let o = rendered_toc_items(elements.drop_last(), attrs, out);
        let e = elements.last();
        with_cr(
            o + open_tag("li"@, attrs) + open_tag("a"@, toc_anchor_attrs(e)) + escaped(e.text)
                + close_tag("a"@) + close_tag("li"@),
        )
    }
}

/// The renderer state after one node is written.
pub open spec fn render_node(n: NodeView, st: RenderState) -> RenderState
    decreases n, 1int,
{
    match n.kind {
        NodeKindView::Root => render_nodes(n.children, st),
        NodeKindView::Paragraph => {
            let st1 = render_nodes(
                n.children,
                RenderState { out: with_cr(st.out) + open_tag("p"@, n.attrs), ..st },
            );
            RenderState { out: with_cr(st1.out + close_tag("p"@)), ..st1 }
        },
        NodeKindView::Heading { level } => {
            let st1 = render_nodes(
                n.children,
                RenderState { out: with_cr(st.out) + open_tag(htag(level), n.attrs), ..st },
            );
            RenderState { out: with_cr(st1.out + close_tag(htag(level))), ..st1 }
        },
        NodeKindView::PlainTextElement { text } => {
            let st1 = render_nodes(
                n.children,
                RenderState {
                    out: st.out + open_tag("p"@, Seq::empty()) + escaped(text),
                    ..st
                },
            );
            RenderState { out: with_cr(st1.out + close_tag("p"@)), ..st1 }
        },
        NodeKindView::Blockquote => {
            let st1 = render_nodes(
                n.children,
                RenderState {
                    out: with_cr(with_cr(st.out) + open_tag("blockquote"@, n.attrs)),
                    ..st
                },
            );
            RenderState { out: with_cr(with_cr(st1.out) + close_tag("blockquote"@)), ..st1 }
        },
        NodeKindView::BulletList { marker } => {
            let st1 = render_nodes(
                n.children,
                RenderState {
                    out: with_cr(with_cr(st.out) + open_tag("ul"@, n.attrs)),
                    ..st
                },
            );
            RenderState { out: with_cr(with_cr(st1.out) + close_tag("ul"@)), ..st1 }
        },
        NodeKindView::OrderedList { start, marker } => {
            let a2 = if start != 1 {
                n.attrs.push(("start"@, dec_digits(start as nat)))
            } else {
                n.attrs
            };
            let st1 = render_nodes(
                n.children,
                RenderState { out: with_cr(with_cr(st.out) + open_tag("ol"@, a2)), ..st },
            );
            RenderState { out: with_cr(with_cr(st1.out) + close_tag("ol"@)), ..st1 }
        },
        NodeKindView::ListItem => {
            let st1 = render_nodes(
                n.children,
                RenderState { out: st.out + open_tag("li"@, n.attrs), ..st },
            );
            RenderState { out: with_cr(st1.out + close_tag("li"@)), ..st1 }
        },
        NodeKindView::CodeBlock { content } => RenderState {
            out: with_cr(
                with_cr(st.out) + open_tag("pre"@, Seq::empty()) + open_tag("code"@, n.attrs)
                    + escaped(content) + close_tag("code"@) + close_tag("pre"@),
            ),
            ..st
        },
        NodeKindView::CodeFence { content, class } => {
            let a2 = match class {
                Some(c) => n.attrs.push(("class"@, c)),
                None => n.attrs,
            };
            RenderState {
                out: with_cr(
                    with_cr(st.out) + open_tag("pre"@, Seq::empty()) + open_tag("code"@, a2)
                        + escaped(content) + close_tag("code"@) + close_tag("pre"@),
                ),
                ..st
            }
        },
        NodeKindView::ThematicBreak => RenderState {
            out: with_cr(with_cr(st.out) + open_tag("hr"@, n.attrs)),
            ..st
        },
        NodeKindView::Text { content } => RenderState { out: st.out + escaped(content), ..st },
        NodeKindView::HtmlInline { content } => RenderState { out: st.out + content, ..st },
        NodeKindView::HtmlBlock { content } => RenderState {
            out: with_cr(with_cr(st.out) + content),
            ..st
        },
        NodeKindView::Hardbreak => RenderState {
            out: with_cr(st.out + open_tag("br"@, Seq::empty())),
            ..st
        },
        NodeKindView::Softbreak => RenderState { out: with_cr(st.out), ..st },
        NodeKindView::Em { marker } => {
            let st1 = render_nodes(
                n.children,
                RenderState { out: st.out + open_tag("em"@, n.attrs), ..st },
            );
            RenderState { out: st1.out + close_tag("em"@), ..st1 }
        },
        NodeKindView::Strong { marker } => {
            let st1 = render_nodes(
                n.children,
                RenderState { out: st.out + open_tag("strong"@, n.attrs), ..st },
            );
            RenderState { out: st1.out + close_tag("strong"@), ..st1 }
        },
        NodeKindView::CodeInline { marker } => {
            let st1 = render_nodes(
                n.children,
                RenderState { out: st.out + open_tag("code"@, n.attrs), ..st },
            );
            RenderState { out: st1.out + close_tag("code"@), ..st1 }
        },
        NodeKindView::Strikethrough { marker } => {
            let st1 = render_nodes(
                n.children,
                RenderState { out: st.out + open_tag("s"@, n.attrs), ..st },
            );
            RenderState { out: st1.out + close_tag("s"@), ..st1 }
        },
        NodeKindView::Link { url, title } => {
            let a1 = n.attrs.push(("href"@, url));
            let a2 = match title {
                Some(t) => a1.push(("title"@, t)),
                None => a1,
            };
            let st1 = render_nodes(
                n.children,
                RenderState { out: st.out + open_tag("a"@, a2), ..st },
            );
            RenderState { out: st1.out + close_tag("a"@), ..st1 }
        },
        NodeKindView::Autolink { url } => {
            let st1 = render_nodes(
                n.children,
                RenderState { out: st.out + open_tag("a"@, n.attrs.push(("href"@, url))), ..st },
            );
            RenderState { out: st1.out + close_tag("a"@), ..st1 }
        },
        NodeKindView::Linkified { url } => {
            let st1 = render_nodes(
                n.children,
                RenderState { out: st.out + open_tag("a"@, n.attrs.push(("href"@, url))), ..st },
            );
            RenderState { out: st1.out + close_tag("a"@), ..st1 }
        },
        NodeKindView::AnnotatedLink { link } => {
            let st1 = render_nodes(
                n.children,
                RenderState { out: st.out + open_tag("a"@, link_attrs(link, n.attrs)), ..st },
            );
            RenderState { out: st1.out + close_tag("a"@), ..st1 }
        },
        NodeKindView::Highlighted { marker } => {
            let st1 = render_nodes(
                n.children,
                RenderState { out: st.out + open_tag("mark"@, n.attrs), ..st },
            );
            RenderState { out: st1.out + close_tag("mark"@), ..st1 }
        },
        NodeKindView::RedColored { marker } => {
            let a2 = n.attrs.push(("class"@, "font-color-red"@));
            let st1 = render_nodes(
                n.children,
                RenderState { out: st.out + open_tag("strong"@, a2), ..st },
            );
            RenderState { out: st1.out + close_tag("strong"@), ..st1 }
        },
        NodeKindView::Underlined { marker } => {
            let st1 = render_nodes(
                n.children,
                RenderState { out: st.out + open_tag("u"@, n.attrs), ..st },
            );
            RenderState { out: st1.out + close_tag("u"@), ..st1 }
        },
        NodeKindView::Table { alignments } => {
            let st1 = render_nodes(
                n.children,
                RenderState {
                    out: with_cr(with_cr(st.out) + open_tag("table"@, n.attrs)),
                    head: false,
                    index: 0,
                    aligns: alignments,
                },
            );
            RenderState {
                out: with_cr(with_cr(st1.out) + close_tag("table"@)),
                head: st.head,
                index: st.index,
                aligns: st.aligns,
            }
        },
        NodeKindView::TableHead => {
            let st1 = render_nodes(
                n.children,
                RenderState {
                    out: with_cr(with_cr(st.out) + open_tag("thead"@, n.attrs)),
                    head: true,
                    ..st
                },
            );
            RenderState {
                out: with_cr(with_cr(st1.out) + close_tag("thead"@)),
                head: false,
                ..st1
            }
        },
        NodeKindView::TableBody => {
            let st1 = render_nodes(
                n.children,
                RenderState {
                    out: with_cr(with_cr(st.out) + open_tag("tbody"@, n.attrs)),
                    ..st
                },
            );
            RenderState { out: with_cr(with_cr(st1.out) + close_tag("tbody"@)), ..st1 }
        },
        NodeKindView::TableRow => {
            let st1 = render_nodes(
                n.children,
                RenderState {
                    out: with_cr(with_cr(st.out) + open_tag("tr"@, n.attrs)),
                    index: 0,
                    ..st
                },
            );
            RenderState { out: with_cr(with_cr(st1.out) + close_tag("tr"@)), ..st1 }
        },
        NodeKindView::TableCell => {
            let tag = if st.head {
                "th"@
            } else {
                "td"@
            };
            let a2 = n.attrs + align_attrs(st.aligns, st.index);
            let st1 = render_nodes(
                n.children,
                RenderState {
                    out: st.out + open_tag(tag, a2),
                    index: next_index(st.aligns, st.index),
                    ..st
                },
            );
            RenderState { out: with_cr(st1.out + close_tag(tag)), ..st1 }
        },
        NodeKindView::ToCList { elements } => {
            let a2 = n.attrs.push(("class"@, "table-of-contents"@));
            let o1 = st.out + open_tag("h2"@, a2) + escaped("Table of Contents"@) + close_tag(
                "h2"@,
            );
            let o2 = with_cr(o1) + open_tag("ul"@, a2);
            let o3 = rendered_toc_items(elements, a2, with_cr(o2));
            let o4 = with_cr(o3) + close_tag("ul"@);
            RenderState { out: with_cr(with_cr(o4)), ..st }
        },
    }
}

/// The renderer state after a sequence of nodes is written, left to right.
pub open spec fn render_nodes(s: Seq<NodeView>, st: RenderState) -> RenderState
    decreases s, 0int,
{
    if s.len() == 0 {
        st
    } else {
        render_node(s.last(), render_nodes(s.drop_last(), st))
    }
}

/// The full render of a document tree: an empty buffer, a fresh table
/// context, and stray NULs replaced at the end.
pub open spec fn rendered(n: NodeView) -> Seq<char> {
    nulls_replaced(
        render_node(
            n,
            RenderState { out: Seq::empty(), head: false, index: 0, aligns: Seq::empty() },
        ).out,
    )
}

/// A copy of an attribute list.
fn clone_attrs(attrs: &Vec<(String, String)>) -> (r: Vec<(String, String)>)
    ensures
        r@ == attrs@,
{
    let count = attrs.len();
    let mut r: Vec<(String, String)> = Vec::new();
    let mut i: usize = 0;
    while i < count
        invariant
            i <= count,
            count == attrs@.len(),
            r@.len() == i,
            forall|j: int| 0 <= j < i ==> r@[j] == attrs@[j],
        decreases count - i,
    {
        r.push((attrs[i].0.clone(), attrs[i].1.clone()));
        i = i + 1;
    }
    proof {
        assert(r@ =~= attrs@);
    }
    r
}

/// A copy of an alignment list.
fn clone_aligns(v: &Vec<ColumnAlignment>) -> (r: Vec<ColumnAlignment>)
    ensures
        r@ == v@,
{
    let count = v.len();
    let mut r: Vec<ColumnAlignment> = Vec::new();
    let mut i: usize = 0;
    while i < count
        invariant
            i <= count,
            count == v@.len(),
            r@.len() == i,
            forall|j: int| 0 <= j < i ==> r@[j] == v@[j],
        decreases count - i,
    {
        r.push(v[i]);
        i = i + 1;
    }
    proof {
        assert(r@ =~= v@);
    }
    r
}

impl HtmlRenderer {
    /// Writes one node and its subtree.
    #[verifier::rlimit(100)]
    pub fn render(&mut self, node: &Node)
        ensures
            final(self).st() == render_node(node@, old(self).st()),
        decreases *node, 1int,
    {
        proof {
            lemma_node_view(*node);
        }
        match &node.kind {
            NodeKind::Root => {
                self.contents(&node.children, Ghost(*node));
            },
            NodeKind::Paragraph => {
                self.cr();
                self.open("p", &node.attrs);
                self.contents(&node.children, Ghost(*node));
                self.close("p");
                self.cr();
            },
            NodeKind::Heading { level } => {
                let mut tag: String = "h".to_owned();
                let num = usize_to_dec(*level as usize);
                tag.append(num.as_str());
                proof {
                    assert(tag@ == htag(*level));
                }
                self.cr();
                self.open(tag.as_str(), &node.attrs);
                self.contents(&node.children, Ghost(*node));
                self.close(tag.as_str());
                self.cr();
            },
            NodeKind::PlainTextElement { text } => {
                let empty_attrs: Vec<(String, String)> = Vec::new();
                self.open("p", &empty_attrs);
                self.text(text.as_str());
                self.contents(&node.children, Ghost(*node));
                self.close("p");
                self.cr();
                proof {
                    assert(attrs_view(empty_attrs@) =~= Seq::<(Seq<char>, Seq<char>)>::empty());
                }
            },
            NodeKind::Blockquote => {
                self.cr();
                self.open("blockquote", &node.attrs);
                self.cr();
                self.contents(&node.children, Ghost(*node));
                self.cr();
                self.close("blockquote");
                self.cr();
            },
            NodeKind::BulletList { marker } => {
                self.cr();
                self.open("ul", &node.attrs);
                self.cr();
                self.contents(&node.children, Ghost(*node));
                self.cr();
                self.close("ul");
                self.cr();
            },
            NodeKind::OrderedList { start, marker } => {
                let mut a = clone_attrs(&node.attrs);
                if *start != 1 {
                    a.push(("start".to_owned(), usize_to_dec(*start as usize)));
                }
                proof {
                    assert(attrs_view(a@) =~= (if *start != 1 {
                        node@.attrs.push(("start"@, dec_digits(*start as nat)))
                    } else {
                        node@.attrs
                    }));
                }
                self.cr();
                self.open("ol", &a);
                self.cr();
                self.contents(&node.children, Ghost(*node));
                self.cr();
                self.close("ol");
                self.cr();
            },
            NodeKind::ListItem => {
                self.open("li", &node.attrs);
                self.contents(&node.children, Ghost(*node));
                self.close("li");
                self.cr();
            },
            NodeKind::CodeBlock { content } => {
                let empty_attrs: Vec<(String, String)> = Vec::new();
                self.cr();
                self.open("pre", &empty_attrs);
                self.open("code", &node.attrs);
                self.text(content.as_str());
                self.close("code");
                self.close("pre");
                self.cr();
                proof {
                    assert(attrs_view(empty_attrs@) =~= Seq::<(Seq<char>, Seq<char>)>::empty());
                }
            },
            NodeKind::CodeFence { content, class } => {
                let mut a = clone_attrs(&node.attrs);
                match class {
                    Some(c) => {
                        a.push(("class".to_owned(), c.clone()));
                    },
                    None => {},
                }
                proof {
                    assert(attrs_view(a@) =~= (match *class {
                        Some(c) => node@.attrs.push(("class"@, c@)),
                        None => node@.attrs,
                    }));
                }
                let empty_attrs: Vec<(String, String)> = Vec::new();
                self.cr();
                self.open("pre", &empty_attrs);
                self.open("code", &a);
                self.text(content.as_str());
                self.close("code");
                self.close("pre");
                self.cr();
                proof {
                    assert(attrs_view(empty_attrs@) =~= Seq::<(Seq<char>, Seq<char>)>::empty());
                }
            },
            NodeKind::ThematicBreak => {
                self.cr();
                self.open("hr", &node.attrs);
                self.cr();
            },
            NodeKind::Text { content } => {
                self.text(content.as_str());
            },
            NodeKind::HtmlInline { content } => {
                self.text_raw(content.as_str());
            },
            NodeKind::HtmlBlock { content } => {
                self.cr();
                self.text_raw(content.as_str());
                self.cr();
            },
            NodeKind::Hardbreak => {
                let empty_attrs: Vec<(String, String)> = Vec::new();
                self.open("br", &empty_attrs);
                self.cr();
                proof {
                    assert(attrs_view(empty_attrs@) =~= Seq::<(Seq<char>, Seq<char>)>::empty());
                }
            },
            NodeKind::Softbreak => {
                self.cr();
            },
            NodeKind::Em { marker } => {
                self.open("em", &node.attrs);
                self.contents(&node.children, Ghost(*node));
                self.close("em");
            },
            NodeKind::Strong { marker } => {
                self.open("strong", &node.attrs);
                self.contents(&node.children, Ghost(*node));
                self.close("strong");
            },
            NodeKind::CodeInline { marker } => {
                self.open("code", &node.attrs);
                self.contents(&node.children, Ghost(*node));
                self.close("code");
            },
            NodeKind::Strikethrough { marker } => {
                self.open("s", &node.attrs);
                self.contents(&node.children, Ghost(*node));
                self.close("s");
            },
            NodeKind::Link { url, title } => {
                let mut a = clone_attrs(&node.attrs);
                a.push(("href".to_owned(), url.clone()));
                match title {
                    Some(t) => {
                        a.push(("title".to_owned(), t.clone()));
                    },
                    None => {},
                }
                proof {
                    let spec_a = match node@.kind->Link_title {
                        Some(t) => node@.attrs.push(("href"@, url@)).push(("title"@, t)),
                        None => node@.attrs.push(("href"@, url@)),
                    };
                    assert(attrs_view(a@) =~= spec_a);
                }
                self.open("a", &a);
                self.contents(&node.children, Ghost(*node));
                self.close("a");
            },
            NodeKind::Autolink { url } => {
                let mut a = clone_attrs(&node.attrs);
                a.push(("href".to_owned(), url.clone()));
                proof {
                    assert(attrs_view(a@) =~= node@.attrs.push(("href"@, url@)));
                }
                self.open("a", &a);
                self.contents(&node.children, Ghost(*node));
                self.close("a");
            },
            NodeKind::Linkified { url } => {
                let mut a = clone_attrs(&node.attrs);
                a.push(("href".to_owned(), url.clone()));
                proof {
                    assert(attrs_view(a@) =~= node@.attrs.push(("href"@, url@)));
                }
                self.open("a", &a);
                self.contents(&node.children, Ghost(*node));
                self.close("a");
            },
            NodeKind::AnnotatedLink { link } => {
                let mut a = clone_attrs(&node.attrs);
                a.push(("href".to_owned(), link.url.clone()));
                match &link.target {
                    Some(t) => {
                        a.push(("target".to_owned(), t.clone()));
                    },
                    None => {},
                }
                match &link.rel {
                    Some(t) => {
                        a.push(("rel".to_owned(), t.clone()));
                    },
                    None => {},
                }
                match &link.title {
                    Some(t) => {
                        a.push(("title".to_owned(), t.clone()));
                    },
                    None => {},
                }
                proof {
                    assert(attrs_view(a@) =~= link_attrs(link@, node@.attrs));
                }
                self.open("a", &a);
                self.contents(&node.children, Ghost(*node));
                self.close("a");
            },
            NodeKind::Highlighted { hl } => {
                self.open("mark", &node.attrs);
                self.contents(&node.children, Ghost(*node));
                self.close("mark");
            },
            NodeKind::RedColored { red } => {
                let mut a = clone_attrs(&node.attrs);
                a.push(("class".to_owned(), "font-color-red".to_owned()));
                proof {
                    assert(attrs_view(a@) =~= node@.attrs.push(("class"@, "font-color-red"@)));
                }
                self.open("strong", &a);
                self.contents(&node.children, Ghost(*node));
                self.close("strong");
            },
            NodeKind::Underlined { und } => {
                self.open("u", &node.attrs);
                self.contents(&node.children, Ghost(*node));
                self.close("u");
            },
            NodeKind::Table { alignments } => {
                let saved_head = self.head;
                let saved_index = self.index;
                let saved_aligns = clone_aligns(&self.aligns);
                self.head = false;
                self.index = 0;
                self.aligns = clone_aligns(alignments);
                self.cr();
                self.open("table", &node.attrs);
                self.cr();
                self.contents(&node.children, Ghost(*node));
                self.cr();
                self.close("table");
                self.cr();
                self.head = saved_head;
                self.index = saved_index;
                self.aligns = saved_aligns;
                proof {
                    assert(self.st() =~= render_node(node@, old(self).st()));
                }
            },
            NodeKind::TableHead => {
                self.head = true;
                self.cr();
                self.open("thead", &node.attrs);
                self.cr();
                self.contents(&node.children, Ghost(*node));
                self.cr();
                self.close("thead");
                self.cr();
                self.head = false;
                proof {
                    assert(self.st() =~= render_node(node@, old(self).st()));
                }
            },
            NodeKind::TableBody => {
                self.cr();
                self.open("tbody", &node.attrs);
                self.cr();
                self.contents(&node.children, Ghost(*node));
                self.cr();
                self.close("tbody");
                self.cr();
            },
            NodeKind::TableRow => {
                self.index = 0;
                self.cr();
                self.open("tr", &node.attrs);
                self.cr();
                self.contents(&node.children, Ghost(*node));
                self.cr();
                self.close("tr");
                self.cr();
            },
            NodeKind::TableCell => {
                let tag: &str = if self.head {
                    "th"
                } else {
                    "td"
                };
                let mut a = clone_attrs(&node.attrs);
                if self.index < self.aligns.len() {
                    match self.aligns[self.index] {
                        ColumnAlignment::Unaligned => {},
                        ColumnAlignment::Left => {
                            a.push(("style".to_owned(), "text-align:left".to_owned()));
                        },
                        ColumnAlignment::Right => {
                            a.push(("style".to_owned(), "text-align:right".to_owned()));
                        },
                        ColumnAlignment::Center => {
                            a.push(("style".to_owned(), "text-align:center".to_owned()));
                        },
                    }
                }
                proof {
                    assert(attrs_view(a@) =~= node@.attrs + align_attrs(
                        old(self).st().aligns,
                        old(self).st().index,
                    ));
                }
                if self.index < self.aligns.len() {
                    self.index = self.index + 1;
                }
                self.open(tag, &a);
                self.contents(&node.children, Ghost(*node));
                self.close(tag);
                self.cr();
                proof {
                    assert(self.st() =~= render_node(node@, old(self).st()));
                }
            },
            NodeKind::ToCList { list } => {
                let mut a = clone_attrs(&node.attrs);
                a.push(("class".to_owned(), "table-of-contents".to_owned()));
                proof {
                    assert(attrs_view(a@) =~= node@.attrs.push(("class"@, "table-of-contents"@)));
                }
                self.open("h2", &a);
                self.text("Table of Contents");
                self.close("h2");
                self.cr();
                self.open("ul", &a);
                self.cr();
                let count = list.elements.len();
                let mut i: usize = 0;
                let ghost a_view = attrs_view(a@);
                let ghost o3 = self.st().out;
                proof {
                    assert(list@.subrange(0, 0) =~= Seq::<ToCElementView>::empty());
                }
                while i < count
                    invariant
                        i <= count,
                        count == list.elements@.len(),
                        a_view == attrs_view(a@),
                        self.st() == (RenderState {
                            out: rendered_toc_items(list@.subrange(0, i as int), a_view, o3),
                            ..old(self).st()
                        }),
                    decreases count - i,
                {
                    let e = &list.elements[i];
                    let mut anchor: Vec<(String, String)> = Vec::new();
                    let mut href: String = "#".to_owned();
                    href.append(e.id.as_str());
                    let mut cls: String = "toc-level-".to_owned();
                    let lvl = usize_to_dec(e.level as usize);
                    cls.append(lvl.as_str());
                    anchor.push(("href".to_owned(), href));
                    anchor.push(("class".to_owned(), cls));
                    proof {
                        assert(attrs_view(anchor@) =~= toc_anchor_attrs(list@[i as int]));
                    }
                    self.open("li", &a);
                    self.open("a", &anchor);
                    self.text(e.text.as_str());
                    self.close("a");
                    self.close("li");
                    self.cr();
                    proof {
                        assert(list@.subrange(0, i as int + 1).drop_last() =~= list@.subrange(
                            0,
                            i as int,
                        ));
                        assert(list@.subrange(0, i as int + 1).last() == list@[i as int]);
                        assert(self.st() =~= (RenderState {
                            out: rendered_toc_items(
                                list@.subrange(0, i as int + 1),
                                a_view,
                                o3,
                            ),
                            ..old(self).st()
                        }));
                    }
                    i = i + 1;
                }
                self.cr();
                self.close("ul");
                self.cr();
                self.cr();
                proof {
                    assert(list@.subrange(0, count as int) =~= list@);
                    assert(self.st() =~= render_node(node@, old(self).st()));
                }
            },
        }
    }

    /// Writes each node of `nodes` in order.
    #[verifier::loop_isolation(false)]
    fn contents(&mut self, nodes: &Vec<Node>, parent: Ghost<Node>)
        requires
            nodes@ == parent@.children@,
        ensures
            final(self).st() == render_nodes(parent@@.children, old(self).st()),
        decreases parent@, 0int,
    {
        proof {
            lemma_node_view(parent@);
        }
        let count = nodes.len();
        let mut i: usize = 0;
        proof {
            assert(parent@@.children.subrange(0, 0) =~= Seq::<NodeView>::empty());
        }
        while i < count
            invariant
                i <= count,
                count == nodes@.len(),
                self.st() == render_nodes(parent@@.children.subrange(0, i as int), old(self).st()),
            decreases count - i,
        {
            proof {
                assert(decreases_to!(parent@ => parent@.children@[i as int]));
            }
            self.render(&nodes[i]);
            proof {
                let k = parent@@.children;
                assert(k.subrange(0, i as int + 1).drop_last() =~= k.subrange(0, i as int));
                assert(k.subrange(0, i as int + 1).last() == k[i as int]);
                assert(k[i as int] == nodes@[i as int]@);
            }
            i = i + 1;
        }
        proof {
            assert(parent@@.children.subrange(0, count as int) =~= parent@@.children);
        }
    }
}

impl Node {
    /// Renders this node's subtree to HTML, starting from an empty buffer.
    pub fn render(&self) -> (r: String)
        ensures
            r@ == rendered(self@),
    {
        let mut fmt = HtmlRenderer::new();
        fmt.render(self);
        let raw = fmt.into_string();
        replace_nulls(raw.as_str())
    }
}

} // verus!
