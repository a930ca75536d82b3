//! The heading normalizer pass.
//!
//! Every heading level is shifted by the configured offset.  A heading whose
//! shifted level leaves the range 1 to 6 is demoted to a plain-text element
//! whose literal text re-spells the original marker (`level` repetitions of
//! `#` and one space), so malformed headings surface as visible raw markup
//! instead of being dropped.
use vstd::prelude::*;

use crate::driver::Pipeline;
use crate::node::{empty_node_view, kind_view, lemma_node_view, Node, NodeKind, NodeKindView,
    NodeView};
use crate::text::{push_char, repeat_char, repeat_char_string};

verus! {

/// What the pass does to one node's variant: headings shift or demote,
/// everything else stays.
pub open spec fn heading_kind(k: NodeKindView, offset: int) -> NodeKindView {
    match k {
        NodeKindView::Heading { level } => {
            let shifted = level as int + offset;
            if 1 <= shifted <= 6 {
                NodeKindView::Heading { level: shifted as u8 }
            } else {
                NodeKindView::PlainTextElement {
                    text: repeat_char('#', level as nat) + seq![' '],
                }
            }
        },
        _ => k,
    }
}

/// The whole tree after the pass: the variant rule applied to every node,
/// children and attributes kept.
pub open spec fn heading_pass(n: NodeView, offset: int) -> NodeView
    decreases n,
{
    NodeView {
        kind: heading_kind(n.kind, offset),
        children: Seq::new(
            n.children.len(),
            |i: int|
                if 0 <= i < n.children.len() {
                    heading_pass(n.children[i], offset)
                } else {
                    empty_node_view()
                },
        ),
        attrs: n.attrs,
    }
}

/// Applies the pass to `n` and everything below it.
#[verifier::loop_isolation(false)]
pub fn run(n: Node, offset: u8) -> (r: Node)
    ensures
        r@ == heading_pass(n@, offset as int),
    decreases n,
{
    let ghost n0 = n;
    let Node { kind, children, attrs } = n;
    let mut rest = children;
    let mut done: Vec<Node> = Vec::new();
    let ghost total = n0.children@.len();
    proof {
        lemma_node_view(n0);
        assert(rest@ =~= n0.children@.subrange(0, total as int));
    }
    while rest.len() > 0
        invariant
            done@.len() + rest@.len() == total,
            total == n0.children@.len(),
            rest@ == n0.children@.subrange(done@.len() as int, total as int),
            forall|j: int|
                0 <= j < done@.len() ==> (#[trigger] done@[j])@ == heading_pass(
                    node_view_at(n0, j),
                    offset as int,
                ),
        decreases rest@.len(),
    {
        let ghost i = done@.len() as int;
        let c = rest.remove(0);
        proof {
            assert(c == n0.children@[i]);
            assert(decreases_to!(n0 => n0.children@[i]));
            assert(rest@ =~= n0.children@.subrange(i + 1, total as int));
        }
        let c2 = run(c, offset);
        done.push(c2);
        proof {
            lemma_node_view(n0);
        }
    }
    let kind2 = match kind {
        NodeKind::Heading { level } => {
            let shifted: u16 = level as u16 + offset as u16;
            if 1 <= shifted && shifted <= 6 {
                NodeKind::Heading { level: shifted as u8 }
            } else {
                let mut text = repeat_char_string('#', level as usize);
                push_char(&mut text, ' ');
                NodeKind::PlainTextElement { text }
            }
        },
        other => other,
    };
    let r = Node { kind: kind2, children: done, attrs };
    proof {
        lemma_node_view(n0);
        lemma_node_view(r);
        assert(kind_view(r.kind) =~= heading_kind(kind_view(n0.kind), offset as int));
        assert(r@.children =~= heading_pass(n0@, offset as int).children);
        assert(r@.attrs =~= n0@.attrs);
        assert(r@ =~= heading_pass(n0@, offset as int));
    }
    r
}

/// The model of the `j`-th child of `n`.
pub open spec fn node_view_at(n: Node, j: int) -> NodeView {
    n@.children[j]
}

/// Registers the heading normalizer on the pipeline.
pub fn add(p: &mut Pipeline)
    ensures
        *final(p) == (Pipeline { heading: true, ..*old(p) }),
{
    p.heading = true;
}

/// Whether no heading stands anywhere in `n`'s subtree.
pub open spec fn heading_free(n: NodeView) -> bool
    decreases n,
{
    &&& !(n.kind is Heading)
    &&& (forall|i: int| 0 <= i < n.children.len() ==> heading_free(#[trigger] n.children[i]))
}

/// On a heading-free tree the pass changes nothing.
pub proof fn lemma_heading_pass_identity(n: NodeView, offset: int)
    requires
        heading_free(n),
    ensures
        heading_pass(n, offset) == n,
    decreases n,
{
    assert forall|i: int| 0 <= i < n.children.len() implies heading_pass(
        #[trigger] n.children[i],
        offset,
    ) == n.children[i] by {
        lemma_heading_pass_identity(n.children[i], offset);
    }
    assert(heading_pass(n, offset).kind == n.kind);
    assert(heading_pass(n, offset).children =~= n.children);
    assert(heading_pass(n, offset).attrs =~= n.attrs);
    assert(heading_pass(n, offset) =~= n);
}

/// After the pass no heading in the tree carries a level outside 1 to 6.
pub open spec fn headings_in_range(n: NodeView) -> bool
    decreases n,
{
    &&& (match n.kind {
        NodeKindView::Heading { level } => 1 <= level <= 6,
        _ => true,
    })
    &&& (forall|i: int| 0 <= i < n.children.len() ==> headings_in_range(#[trigger] n.children[i]))
}

/// The pass never hands the renderer an out-of-range heading: a shifted
/// level within 1 to 6 stays a heading, anything else was demoted.
pub proof fn lemma_heading_pass_in_range(n: NodeView, offset: int)
    requires
        offset >= 0,
    ensures
        headings_in_range(heading_pass(n, offset)),
    decreases n,
{
    let t = heading_pass(n, offset);
    assert forall|i: int| 0 <= i < t.children.len() implies headings_in_range(
        #[trigger] t.children[i],
    ) by {
        lemma_heading_pass_in_range(n.children[i], offset);
    }
}

/// How a heading of level `level` with offset `offset` reaches the page,
/// rendering from buffer state `st`.  Within range the rendered element is
/// exactly `h{level+offset}`; out of range the node renders as a paragraph
/// whose text opens with `level` repetitions of `#` and one space, the
/// original inline content (heading-free, so the pass left it alone)
/// rendered inside it.
pub proof fn lemma_heading_rendering(
    level: u8,
    offset: int,
    children: Seq<NodeView>,
    attrs: Seq<(Seq<char>, Seq<char>)>,
    st: crate::renderer::RenderState,
)
    requires
        forall|i: int| 0 <= i < children.len() ==> heading_free(#[trigger] children[i]),
    ensures
        ({
            let n = NodeView { kind: NodeKindView::Heading { level }, children, attrs };
            let t = heading_pass(n, offset);
            let shifted = level as int + offset;
            &&& t.children == children
            &&& (1 <= shifted <= 6 ==> t.kind == (NodeKindView::Heading {
                level: shifted as u8,
            }))
            &&& (1 <= shifted <= 6 ==> crate::renderer::render_node(t, st)
                == ({
                let tag = "h"@ + crate::text::dec_digits(shifted as nat);
                let st1 = crate::renderer::render_nodes(
                    children,
                    crate::renderer::RenderState {
                        out: crate::renderer::with_cr(st.out) + crate::renderer::open_tag(
                            tag,
                            attrs,
                        ),
                        ..st
                    },
                );
                crate::renderer::RenderState {
                    out: crate::renderer::with_cr(st1.out + crate::renderer::close_tag(tag)),
                    ..st1
                }
            }))
            &&& (!(1 <= shifted <= 6) ==> t.kind == (NodeKindView::PlainTextElement {
                text: repeat_char('#', level as nat) + seq![' '],
            }))
            &&& (!(1 <= shifted <= 6) ==> crate::renderer::render_node(t, st)
                == ({
                let st1 = crate::renderer::render_nodes(
                    children,
                    crate::renderer::RenderState {
                        out: st.out + crate::renderer::open_tag("p"@, Seq::empty())
                            + crate::text::escaped(
                            repeat_char('#', level as nat) + seq![' '],
                        ),
                        ..st
                    },
                );
                crate::renderer::RenderState {
                    out: crate::renderer::with_cr(
                        st1.out + crate::renderer::close_tag("p"@),
                    ),
                    ..st1
                }
            }))
        }),
{
    let n = NodeView { kind: NodeKindView::Heading { level }, children, attrs };
    let t = heading_pass(n, offset);
    assert forall|i: int| 0 <= i < children.len() implies heading_pass(
        #[trigger] children[i],
        offset,
    ) == children[i] by {
        lemma_heading_pass_identity(children[i], offset);
    }
    assert(t.children =~= children);
    let shifted = level as int + offset;
    if 1 <= shifted <= 6 {
        assert(crate::renderer::render_node(t, st) =~= ({
            let tag = "h"@ + crate::text::dec_digits(shifted as nat);
            let st1 = crate::renderer::render_nodes(
                children,
                crate::renderer::RenderState {
                    out: crate::renderer::with_cr(st.out) + crate::renderer::open_tag(tag, attrs),
                    ..st
                },
            );
            crate::renderer::RenderState {
                out: crate::renderer::with_cr(st1.out + crate::renderer::close_tag(tag)),
                ..st1
            }
        }));
    } else {
        assert(crate::renderer::render_node(t, st) =~= ({
            let st1 = crate::renderer::render_nodes(
                children,
                crate::renderer::RenderState {
                    out: st.out + crate::renderer::open_tag("p"@, Seq::empty())
                        + crate::text::escaped(repeat_char('#', level as nat) + seq![' ']),
                    ..st
                },
            );
            crate::renderer::RenderState {
                out: crate::renderer::with_cr(st1.out + crate::renderer::close_tag("p"@)),
                ..st1
            }
        }));
    }
}

} // verus!
