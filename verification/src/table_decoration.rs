//! The table decorator pass.
//!
//! Every table node gets an attribute list of exactly one pair: `class` set
//! to the configured class name.  Whatever attributes the table had before
//! are discarded; its alignment payload and children stay unchanged.
use vstd::prelude::*;
use vstd::string::StringExecFns;

use crate::driver::Pipeline;
use crate::node::{empty_node_view, kind_view, lemma_node_view, Node, NodeKind, NodeKindView,
    NodeView};

verus! {

/// The whole tree after the pass: every table's attribute list is exactly
/// one `class` pair; every other node is untouched.
pub open spec fn table_pass(n: NodeView, cls: Seq<char>) -> NodeView
    decreases n,
{
    let kids = Seq::new(
        n.children.len(),
        |i: int|
            if 0 <= i < n.children.len() {
                table_pass(n.children[i], cls)
            } else {
                empty_node_view()
            },
    );
    match n.kind {
        NodeKindView::Table { alignments } => NodeView {
            kind: NodeKindView::Table { alignments },
            children: kids,
            attrs: seq![("class"@, cls)],
        },
        _ => NodeView { kind: n.kind, children: kids, attrs: n.attrs },
    }
}

/// Applies the pass to `n` and everything below it.
#[verifier::loop_isolation(false)]
pub fn run(n: Node, class_name: &str) -> (r: Node)
    ensures
        r@ == table_pass(n@, class_name@),
    decreases n,
{
    let ghost n0 = n;
    let Node { kind, children, attrs } = n;
    let mut rest = children;
    let mut done: Vec<Node> = Vec::new();
    let ghost total = n0.children@.len();
    proof {
        lemma_node_view(n0);
        assert(rest@ =~= n0.children@.subrange(0, total as int));
    }
    while rest.len() > 0
        invariant
            done@.len() + rest@.len() == total,
            rest@ == n0.children@.subrange(done@.len() as int, total as int),
            forall|j: int|
                0 <= j < done@.len() ==> (#[trigger] done@[j])@ == table_pass(
                    n0@.children[j],
                    class_name@,
                ),
        decreases rest@.len(),
    {
        let ghost i = done@.len() as int;
        let c = rest.remove(0);
        proof {
            assert(c == n0.children@[i]);
            assert(decreases_to!(n0 => n0.children@[i]));
            assert(rest@ =~= n0.children@.subrange(i + 1, total as int));
        }
        let c2 = run(c, class_name);
        done.push(c2);
    }
    let r = match kind {
        NodeKind::Table { alignments } => {
            let mut decorated: Vec<(String, String)> = Vec::new();
            decorated.push(("class".to_owned(), class_name.to_owned()));
            Node { kind: NodeKind::Table { alignments }, children: done, attrs: decorated }
        },
        other => Node { kind: other, children: done, attrs },
    };
    proof {
        lemma_node_view(r);
        assert(kind_view(r.kind) =~= table_pass(n0@, class_name@).kind);
        assert(r@.children =~= table_pass(n0@, class_name@).children);
        assert(r@.attrs =~= table_pass(n0@, class_name@).attrs);
        assert(r@ =~= table_pass(n0@, class_name@));
    }
    r
}

/// Registers the table decorator on the pipeline.
pub fn add(p: &mut Pipeline)
    ensures
        *final(p) == (Pipeline { table: true, ..*old(p) }),
{
    p.table = true;
}

/// Whether every table node in `n`'s subtree carries exactly one attribute:
/// `class` set to `cls`.
pub open spec fn tables_decorated(n: NodeView, cls: Seq<char>) -> bool
    decreases n,
{
    &&& (n.kind is Table ==> n.attrs == seq![("class"@, cls)])
    &&& (forall|i: int|
        0 <= i < n.children.len() ==> tables_decorated(#[trigger] n.children[i], cls))
}

/// After the pass, every table in the tree renders with exactly one `class`
/// attribute equal to the configured class name, no matter how many
/// attributes it carried before.
pub proof fn lemma_table_pass_decorates(n: NodeView, cls: Seq<char>)
    ensures
        tables_decorated(table_pass(n, cls), cls),
    decreases n,
{
    let t = table_pass(n, cls);
    assert forall|i: int| 0 <= i < t.children.len() implies tables_decorated(
        #[trigger] t.children[i],
        cls,
    ) by {
        lemma_table_pass_decorates(n.children[i], cls);
    }
}

} // verus!
