//! The table-of-contents builder.
//!
//! One pre-order walk over the normalized tree assigns stable anchor ids to
//! qualifying headings (level strictly greater than 1 and at most 4),
//! flattens each heading's inline content to plain text, and appends one
//! synthesized ToC list node as the last child of the root.
use vstd::prelude::*;
use vstd::string::StringExecFns;

use crate::driver::Pipeline;
use crate::node::{kind_view, lemma_node_view, nodes_view, Node, NodeKind, NodeKindView, NodeView};
use crate::text::{dec_digits, escape_into, escaped, nulls_replaced, replace_nulls, usize_to_dec};

verus! {

/// One entry of the table of contents: anchor id, heading level, plain text.
pub struct ToCElement {
    pub id: String,
    pub level: u32,
    pub text: String,
}

/// Mathematical model of a ToC entry.
#[verifier::ext_equal]
pub ghost struct ToCElementView {
    pub id: Seq<char>,
    pub level: u32,
    pub text: Seq<char>,
}

impl View for ToCElement {
    type V = ToCElementView;

    open spec fn view(&self) -> ToCElementView {
        ToCElementView { id: self.id@, level: self.level, text: self.text@ }
    }
}

/// The synthesized navigation node, holding all collected entries in order.
pub struct ToCList {
    pub elements: Vec<ToCElement>,
}

/// The models of a sequence of ToC entries.
pub open spec fn toc_elems_view(s: Seq<ToCElement>) -> Seq<ToCElementView> {
    Seq::new(s.len(), |i: int| s[i]@)
}

impl View for ToCList {
    type V = Seq<ToCElementView>;

    open spec fn view(&self) -> Seq<ToCElementView> {
        toc_elems_view(self.elements@)
    }
}

/// What the flattening render writes for the entries of a ToC list.
pub open spec fn toc_entry_texts(elements: Seq<ToCElementView>) -> Seq<char>
    decreases elements.len(),
{
    if elements.len() == 0 {
        Seq::empty()
    } else {
        toc_entry_texts(elements.drop_last()) + escaped(elements.last().text)
    }
}

/// The plain text of a node: tags vanish, text content is HTML-escaped, raw
/// content stays verbatim, line breaks write nothing, and children are
/// flattened in order.
pub open spec fn flat_text(n: NodeView) -> Seq<char>
    decreases n, 1int,
{
    match n.kind {
        NodeKindView::Text { content } => escaped(content),
        NodeKindView::CodeBlock { content } => escaped(content),
        NodeKindView::CodeFence { content, class } => escaped(content),
        NodeKindView::HtmlInline { content } => content,
        NodeKindView::HtmlBlock { content } => content,
        NodeKindView::PlainTextElement { text } => escaped(text) + flat_children(n.children),
        NodeKindView::ToCList { elements } => escaped("Table of Contents"@) + toc_entry_texts(
            elements,
        ),
        _ => flat_children(n.children),
    }
}

/// The concatenated plain text of a sequence of nodes.
pub open spec fn flat_children(s: Seq<NodeView>) -> Seq<char>
    decreases s, 0int,
{
    if s.len() == 0 {
        Seq::empty()
    } else {
        flat_children(s.drop_last()) + flat_text(s.last())
    }
}

/// Renders a subtree as plain text, stripping all tags.
pub struct PlainTextRenderer {
    result: String,
}

impl PlainTextRenderer {
    /// The text collected so far.
    pub closed spec fn collected(&self) -> Seq<char> {
        self.result@
    }

    /// A renderer with an empty buffer.
    pub fn new() -> (r: Self)
        ensures
            r.collected() == Seq::<char>::empty(),
    {
        PlainTextRenderer { result: String::new() }
    }

    /// Appends the plain text of `node` to the buffer.
    #[verifier::loop_isolation(false)]
    pub fn render(&mut self, node: &Node)
        ensures
            final(self).collected() == old(self).collected() + flat_text(node@),
        decreases *node, 1int,
    {
        proof {
            lemma_node_view(*node);
        }
        match &node.kind {
            NodeKind::Text { content } => {
                escape_into(content.as_str(), &mut self.result);
            },
            NodeKind::CodeBlock { content } => {
                escape_into(content.as_str(), &mut self.result);
            },
            NodeKind::CodeFence { content, class } => {
                escape_into(content.as_str(), &mut self.result);
            },
            NodeKind::HtmlInline { content } => {
                self.result.append(content.as_str());
            },
            NodeKind::HtmlBlock { content } => {
                self.result.append(content.as_str());
            },
            NodeKind::PlainTextElement { text } => {
                escape_into(text.as_str(), &mut self.result);
                self.contents(&node.children, Ghost(*node));
                proof {
                    assert(self.collected() =~= old(self).collected() + flat_text(node@));
                }
            },
            NodeKind::ToCList { list } => {
                escape_into("Table of Contents", &mut self.result);
                let count = list.elements.len();
                let mut i: usize = 0;
                proof {
                    assert(list@.subrange(0, 0) =~= Seq::<ToCElementView>::empty());
                }
                while i < count
                    invariant
                        i <= count,
                        count == list.elements@.len(),
                        self.collected() == old(self).collected() + escaped(
                            "Table of Contents"@,
                        ) + toc_entry_texts(list@.subrange(0, i as int)),
                    decreases count - i,
                {
                    escape_into(list.elements[i].text.as_str(), &mut self.result);
                    proof {
                        assert(list@.subrange(0, i as int + 1).drop_last() =~= list@.subrange(
                            0,
                            i as int,
                        ));
                        assert(list@.subrange(0, i as int + 1).last() == list@[i as int]);
                        assert(list@[i as int].text == list.elements@[i as int].text@);
                    }
                    i = i + 1;
                }
                proof {
                    assert(list@.subrange(0, count as int) =~= list@);
                    assert(node@.kind == (NodeKindView::ToCList { elements: list@ }));
                    assert(self.collected() =~= old(self).collected() + flat_text(node@));
                }
            },
            _ => {
                self.contents(&node.children, Ghost(*node));
                proof {
                    assert(self.collected() =~= old(self).collected() + flat_text(node@));
                }
            },
        }
    }

    /// Appends the plain text of each node in `nodes`, in order.
    #[verifier::loop_isolation(false)]
    fn contents(&mut self, nodes: &Vec<Node>, parent: Ghost<Node>)
        requires
            nodes@ == parent@.children@,
        ensures
            final(self).collected() == old(self).collected() + flat_children(parent@@.children),
        decreases parent@, 0int,
    {
        proof {
            lemma_node_view(parent@);
        }
        let count = nodes.len();
        let mut i: usize = 0;
        proof {
            assert(parent@@.children.subrange(0, 0) =~= Seq::<NodeView>::empty());
        }
        while i < count
            invariant
                i <= count,
                count == nodes@.len(),
                self.collected() == old(self).collected() + flat_children(
                    parent@@.children.subrange(0, i as int),
                ),
            decreases count - i,
        {
            proof {
                assert(decreases_to!(parent@ => parent@.children@[i as int]));
            }
            self.render(&nodes[i]);
            proof {
                let k = parent@@.children;
                assert(k.subrange(0, i as int + 1).drop_last() =~= k.subrange(0, i as int));
                assert(k.subrange(0, i as int + 1).last() == k[i as int]);
                assert(k[i as int] == nodes@[i as int]@);
                assert(self.collected() =~= old(self).collected() + flat_children(
                    k.subrange(0, i as int + 1),
                ));
            }
            i = i + 1;
        }
        proof {
            assert(parent@@.children.subrange(0, count as int) =~= parent@@.children);
        }
    }

    /// The collected text as a string, stray NULs replaced.
    pub fn into_string(self) -> (r: String)
        ensures
            r@ == nulls_replaced(self.collected()),
    {
        replace_nulls(self.result.as_str())
    }
}

/// Whether a node variant is a heading the ToC collects: level strictly
/// greater than 1 and at most 4.
pub open spec fn qualifies(k: NodeKindView) -> bool {
    match k {
        NodeKindView::Heading { level } => 1 < level <= 4,
        _ => false,
    }
}

/// The anchor id assigned to the `count`-th collected heading.
pub open spec fn toc_id(count: nat) -> Seq<char> {
    "heading-"@ + dec_digits(count)
}

/// What visiting one node does before its children: a qualifying heading
/// gets the next anchor id appended to its attributes and one entry
/// (id, level, flattened text) appended to the collection.
pub open spec fn toc_visit(n: NodeView, elems: Seq<ToCElementView>) -> (
    NodeView,
    Seq<ToCElementView>,
) {
    match n.kind {
        NodeKindView::Heading { level } => if 1 < level <= 4 {
            let id = toc_id(elems.len());
            (
                NodeView { kind: n.kind, children: n.children, attrs: n.attrs.push(("id"@, id)) },
                elems.push(
                    ToCElementView {
                        id,
                        level: level as u32,
                        text: nulls_replaced(flat_text(n)),
                    },
                ),
            )
        } else {
            (n, elems)
        },
        _ => (n, elems),
    }
}

/// The walk over one node: visit it, then its children left to right,
/// threading the collection through.
pub open spec fn toc_walk(n: NodeView, elems: Seq<ToCElementView>) -> (
    NodeView,
    Seq<ToCElementView>,
)
    decreases n, 1int,
{
    let visited = toc_visit(n, elems);
    let walked = toc_walk_children(n.children, visited.1);
    (NodeView { kind: visited.0.kind, children: walked.0, attrs: visited.0.attrs }, walked.1)
}

/// The walk over a sequence of sibling nodes, left to right.
pub open spec fn toc_walk_children(s: Seq<NodeView>, elems: Seq<ToCElementView>) -> (
    Seq<NodeView>,
    Seq<ToCElementView>,
)
    decreases s, 0int,
{
    if s.len() == 0 {
        (Seq::empty(), elems)
    } else {
        let front = toc_walk_children(s.drop_last(), elems);
        let walked = toc_walk(s.last(), front.1);
        (front.0.push(walked.0), walked.1)
    }
}

/// The whole pass: walk the tree, then append the synthesized ToC list node
/// as the last child of the root.
pub open spec fn toc_run(n: NodeView) -> NodeView {
    let walked = toc_walk(n, Seq::empty());
    NodeView {
        kind: walked.0.kind,
        children: walked.0.children.push(
            NodeView {
                kind: NodeKindView::ToCList { elements: walked.1 },
                children: Seq::empty(),
                attrs: Seq::empty(),
            },
        ),
        attrs: walked.0.attrs,
    }
}

/// Walks `n`, assigning ids and collecting entries into `elems`.
#[verifier::loop_isolation(false)]
fn walk(n: Node, elems: &mut Vec<ToCElement>) -> (r: Node)
    ensures
        r@ == toc_walk(n@, toc_elems_view(old(elems)@)).0,
        toc_elems_view(final(elems)@) == toc_walk(n@, toc_elems_view(old(elems)@)).1,
    decreases n,
{
    let ghost n0 = n;
    let ghost e0 = toc_elems_view(elems@);
    proof {
        lemma_node_view(n0);
    }
    let Node { kind, children, attrs } = n;
    let mut attrs = attrs;
    let is_q = match &kind {
        NodeKind::Heading { level } => 1 < *level && *level <= 4,
        _ => false,
    };
    if is_q {
        let mut id: String = "heading-".to_owned();
        let num = usize_to_dec(elems.len());
        id.append(num.as_str());
        proof {
            assert(id@ =~= toc_id(e0.len()));
        }
        attrs.push(("id".to_owned(), id.clone()));
        let mut fmt = PlainTextRenderer::new();
        fmt.contents(&children, Ghost(n0));
        let text = fmt.into_string();
        let level: u8 = match &kind {
            NodeKind::Heading { level } => *level,
            _ => 0,
        };
        elems.push(ToCElement { id, level: level as u32, text });
        proof {
            assert(flat_text(n0@) =~= flat_children(n0@.children));
            assert(toc_elems_view(elems@) =~= toc_visit(n0@, e0).1);
            assert(crate::node::attrs_view(attrs@) =~= toc_visit(n0@, e0).0.attrs);
        }
    } else {
        proof {
            assert(toc_visit(n0@, e0).0 == n0@);
            assert(toc_visit(n0@, e0).1 == e0);
        }
    }
    let ghost visited = toc_visit(n0@, e0);
    let mut rest = children;
    let mut done: Vec<Node> = Vec::new();
    let ghost total = n0.children@.len();
    proof {
        assert(rest@ =~= n0.children@.subrange(0, total as int));
        assert(n0@.children.subrange(0, 0) =~= Seq::<NodeView>::empty());
        assert(nodes_view(done@) =~= Seq::<NodeView>::empty());
        assert(toc_elems_view(elems@) == visited.1);
    }
    while rest.len() > 0
        invariant
            done@.len() + rest@.len() == total,
            rest@ == n0.children@.subrange(done@.len() as int, total as int),
            ({
                let w = toc_walk_children(n0@.children.subrange(0, done@.len() as int), visited.1);
                nodes_view(done@) == w.0 && toc_elems_view(elems@) == w.1
            }),
        decreases rest@.len(),
    {
        let ghost i = done@.len() as int;
        let c = rest.remove(0);
        proof {
            assert(c == n0.children@[i]);
            assert(decreases_to!(n0 => n0.children@[i]));
            assert(rest@ =~= n0.children@.subrange(i + 1, total as int));
        }
        let c2 = walk(c, elems);
        done.push(c2);
        proof {
            let k = n0@.children;
            assert(k.subrange(0, i + 1).drop_last() =~= k.subrange(0, i));
            assert(k.subrange(0, i + 1).last() == k[i]);
            assert(k[i] == n0.children@[i]@);
            assert(nodes_view(done@) =~= toc_walk_children(k.subrange(0, i + 1), visited.1).0);
        }
    }
    let r = Node { kind, children: done, attrs };
    proof {
        lemma_node_view(r);
        assert(n0@.children.subrange(0, total as int) =~= n0@.children);
        assert(kind_view(r.kind) == visited.0.kind);
        assert(r@.children =~= toc_walk(n0@, e0).0.children);
        assert(r@.attrs =~= toc_walk(n0@, e0).0.attrs);
        assert(r@ =~= toc_walk(n0@, e0).0);
    }
    r
}

/// Applies the pass: assigns ids, collects entries, and appends the ToC node
/// as the last child of the root.
pub fn run(root: Node) -> (r: Node)
    ensures
        r@ == toc_run(root@),
{
    let mut elems: Vec<ToCElement> = Vec::new();
    proof {
        assert(toc_elems_view(elems@) =~= Seq::<ToCElementView>::empty());
    }
    let mut t = walk(root, &mut elems);
    let toc_node = Node::new(NodeKind::ToCList { list: ToCList { elements: elems } });
    let ghost t1 = t;
    t.children.push(toc_node);
    proof {
        lemma_node_view(t1);
        lemma_node_view(t);
        assert(t@.children =~= toc_run(root@).children);
        assert(t@ =~= toc_run(root@));
    }
    t
}

/// Registers the ToC builder on the pipeline.
pub fn add(p: &mut Pipeline)
    ensures
        *final(p) == (Pipeline { toc: true, ..*old(p) }),
{
    p.toc = true;
}

/// The number of qualifying headings in `n`'s subtree, itself included.
pub open spec fn count_qualifying(n: NodeView) -> nat
    decreases n, 1int,
{
    (if qualifies(n.kind) {
        1nat
    } else {
        0nat
    }) + count_qualifying_seq(n.children)
}

/// The number of qualifying headings under a sequence of nodes.
pub open spec fn count_qualifying_seq(s: Seq<NodeView>) -> nat
    decreases s, 0int,
{
    if s.len() == 0 {
        0nat
    } else {
        count_qualifying_seq(s.drop_last()) + count_qualifying(s.last())
    }
}

/// What the walk does to the collection: entries already collected stay
/// untouched, exactly one entry is added per qualifying heading, and every
/// added entry carries the anchor id of its position and a level between 2
/// and 4.
pub proof fn lemma_toc_walk_ids(n: NodeView, es: Seq<ToCElementView>)
    ensures
        ({
            let w = toc_walk(n, es);
            &&& w.1.len() == es.len() + count_qualifying(n)
            &&& (forall|i: int| 0 <= i < es.len() ==> w.1[i] == es[i])
            &&& (forall|i: int|
                es.len() <= i < w.1.len() ==> (#[trigger] w.1[i]).id == toc_id(i as nat) && 2
                    <= w.1[i].level <= 4)
        }),
    decreases n, 1int,
{
    let visited = toc_visit(n, es);
    lemma_toc_walk_ids_seq(n.children, visited.1);
    let w = toc_walk(n, es);
    let wc = toc_walk_children(n.children, visited.1);
    if qualifies(n.kind) {
        assert(visited.1.len() == es.len() + 1);
        assert(forall|i: int| 0 <= i < es.len() ==> visited.1[i] == es[i]);
        assert(visited.1[es.len() as int].id == toc_id(es.len()));
        assert(2 <= visited.1[es.len() as int].level <= 4);
    } else {
        assert(visited.1 == es);
    }
    assert(w.1 == wc.1);
    assert(w.1.len() == es.len() + count_qualifying(n));
    assert forall|i: int| es.len() <= i < w.1.len() implies (#[trigger] w.1[i]).id == toc_id(
        i as nat,
    ) && 2 <= w.1[i].level <= 4 by {
        if i < visited.1.len() {
            assert(w.1[i] == visited.1[i]);
        }
    }
}

/// The collection clauses of `lemma_toc_walk_ids`, over sibling sequences.
pub proof fn lemma_toc_walk_ids_seq(s: Seq<NodeView>, es: Seq<ToCElementView>)
    ensures
        ({
            let w = toc_walk_children(s, es);
            &&& w.1.len() == es.len() + count_qualifying_seq(s)
            &&& (forall|i: int| 0 <= i < es.len() ==> w.1[i] == es[i])
            &&& (forall|i: int|
                es.len() <= i < w.1.len() ==> (#[trigger] w.1[i]).id == toc_id(i as nat) && 2
                    <= w.1[i].level <= 4)
        }),
    decreases s, 0int,
{
    if s.len() > 0 {
        lemma_toc_walk_ids_seq(s.drop_last(), es);
        let front = toc_walk_children(s.drop_last(), es);
        lemma_toc_walk_ids(s.last(), front.1);
        let walked = toc_walk(s.last(), front.1);
        let w = toc_walk_children(s, es);
        assert(w.1 == walked.1);
        assert(front.1.len() == es.len() + count_qualifying_seq(s.drop_last()));
        assert(w.1.len() == es.len() + count_qualifying_seq(s));
        assert forall|i: int| 0 <= i < es.len() implies w.1[i] == es[i] by {
            assert(walked.1[i] == front.1[i]);
            assert(front.1[i] == es[i]);
        }
        assert forall|i: int| es.len() <= i < w.1.len() implies (#[trigger] w.1[i]).id == toc_id(
            i as nat,
        ) && 2 <= w.1[i].level <= 4 by {
            if i < front.1.len() {
                assert(walked.1[i] == front.1[i]);
                assert(front.1[i].id == toc_id(i as nat) && 2 <= front.1[i].level <= 4);
            }
        }
    }
}

/// ToC anchor ids are injective: distinct positions give distinct ids.
pub proof fn lemma_toc_id_injective(a: nat, b: nat)
    requires
        toc_id(a) == toc_id(b),
    ensures
        a == b,
{
    let p = "heading-"@;
    assert((p + dec_digits(a)).subrange(p.len() as int, (p + dec_digits(a)).len() as int)
        =~= dec_digits(a));
    assert((p + dec_digits(b)).subrange(p.len() as int, (p + dec_digits(b)).len() as int)
        =~= dec_digits(b));
    assert(dec_digits(a) == dec_digits(b));
    crate::text::lemma_dec_digits_injective(a, b);
}

/// Over a whole document the collected entries have pairwise distinct ids,
/// assigned in document order and only to headings of level 2 to 4; the
/// synthesized ToC node is the last child of the root and holds exactly one
/// entry per qualifying heading, in collection order.
pub proof fn lemma_toc_run_entries(n: NodeView)
    ensures
        ({
            let w = toc_walk(n, Seq::empty());
            let t = toc_run(n);
            &&& w.1.len() == count_qualifying(n)
            &&& (forall|i: int|
                0 <= i < w.1.len() ==> (#[trigger] w.1[i]).id == toc_id(i as nat) && 2 <= w.1[i].level <= 4)
            &&& (forall|i: int, j: int|
                0 <= i < j < w.1.len() ==> (#[trigger] w.1[i]).id != (#[trigger] w.1[j]).id)
            &&& t.children.len() == n.children.len() + 1
            &&& t.children.last() == (NodeView {
                kind: NodeKindView::ToCList { elements: w.1 },
                children: Seq::<NodeView>::empty(),
                attrs: Seq::<(Seq<char>, Seq<char>)>::empty(),
            })
        }),
{
    let w = toc_walk(n, Seq::empty());
    lemma_toc_walk_ids(n, Seq::empty());
    assert forall|i: int, j: int| 0 <= i < j < w.1.len() implies (#[trigger] w.1[i]).id != (
    #[trigger] w.1[j]).id by {
        if w.1[i].id == w.1[j].id {
            lemma_toc_id_injective(i as nat, j as nat);
        }
    }
    lemma_toc_walk_children_len(n.children, toc_visit(n, Seq::empty()).1);
}

/// The walk keeps the number of siblings.
pub proof fn lemma_toc_walk_children_len(s: Seq<NodeView>, es: Seq<ToCElementView>)
    ensures
        toc_walk_children(s, es).0.len() == s.len(),
    decreases s,
{
    if s.len() > 0 {
        lemma_toc_walk_children_len(s.drop_last(), es);
    }
}

/// Which node kinds are inline spans or text, the content a heading may hold.
pub open spec fn inline_kind(k: NodeKindView) -> bool {
    ||| k is Text
    ||| k is Softbreak
    ||| k is Hardbreak
    ||| k is Em
    ||| k is Strong
    ||| k is CodeInline
    ||| k is Strikethrough
    ||| k is Highlighted
    ||| k is RedColored
    ||| k is Underlined
    ||| k is Link
    ||| k is Autolink
    ||| k is Linkified
    ||| k is AnnotatedLink
    ||| k is Heading
}

/// Whether a subtree holds only inline spans and text.
pub open spec fn inline_only(n: NodeView) -> bool
    decreases n,
{
    &&& inline_kind(n.kind)
    &&& (forall|i: int| 0 <= i < n.children.len() ==> inline_only(#[trigger] n.children[i]))
}

/// The escaped text content of a subtree, read off the text leaves alone,
/// in order, with every other variant contributing nothing of its own.
pub open spec fn texts_of(n: NodeView) -> Seq<char>
    decreases n, 1int,
{
    match n.kind {
        NodeKindView::Text { content } => escaped(content),
        _ => texts_of_seq(n.children),
    }
}

/// The concatenated text content of a sequence of nodes.
pub open spec fn texts_of_seq(s: Seq<NodeView>) -> Seq<char>
    decreases s, 0int,
{
    if s.len() == 0 {
        Seq::empty()
    } else {
        texts_of_seq(s.drop_last()) + texts_of(s.last())
    }
}

/// Flattening a subtree of nested inline spans strips all markup: the result
/// is exactly the concatenated escaped text content of its text leaves.
pub proof fn lemma_flatten_strips_markup(n: NodeView)
    requires
        inline_only(n),
    ensures
        flat_text(n) == texts_of(n),
    decreases n, 1int,
{
    if !(n.kind is Text) {
        lemma_flatten_strips_markup_seq(n.children);
    }
}

/// The sequence form of `lemma_flatten_strips_markup`.
pub proof fn lemma_flatten_strips_markup_seq(s: Seq<NodeView>)
    requires
        forall|i: int| 0 <= i < s.len() ==> inline_only(#[trigger] s[i]),
    ensures
        flat_children(s) == texts_of_seq(s),
    decreases s, 0int,
{
    if s.len() > 0 {
        assert(forall|i: int|
            0 <= i < s.drop_last().len() ==> #[trigger] s.drop_last()[i] == s[i]);
        lemma_flatten_strips_markup_seq(s.drop_last());
        assert(s.last() == s[s.len() - 1]);
        lemma_flatten_strips_markup(s.last());
    }
}

} // verus!
