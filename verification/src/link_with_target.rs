//! The link classifier pass.
//!
//! Every link-like node (explicit link, autolink, detected URL) is replaced by
//! one annotated link variant carrying the url, the optional title, and the
//! `target`/`rel` pair: both absent for internal links, both set to fixed
//! values for external ones.
use vstd::prelude::*;
use vstd::string::StringExecFns;

use crate::domain::{spec_matches, InternalDomain};
use crate::driver::Pipeline;
use crate::node::{empty_node_view, kind_view, lemma_node_view, opt_str_view, Node, NodeKind,
    NodeKindView, NodeView};

verus! {

/// A link after classification: url, optional title, optional target/rel.
pub struct LinkWithTarget {
    pub url: String,
    pub title: Option<String>,
    pub target: Option<String>,
    pub rel: Option<String>,
}

/// Mathematical model of an annotated link.
#[verifier::ext_equal]
pub ghost struct LinkWithTargetView {
    pub url: Seq<char>,
    pub title: Option<Seq<char>>,
    pub target: Option<Seq<char>>,
    pub rel: Option<Seq<char>>,
}

impl View for LinkWithTarget {
    type V = LinkWithTargetView;

    open spec fn view(&self) -> LinkWithTargetView {
        LinkWithTargetView {
            url: self.url@,
            title: opt_str_view(self.title),
            target: opt_str_view(self.target),
            rel: opt_str_view(self.rel),
        }
    }
}

/// The base and domain strings of a configured matcher, when one is set.
pub open spec fn matcher_view(m: Option<&InternalDomain>) -> Option<(Seq<char>, Seq<char>)> {
    match m {
        Some(d) => Some((d.base_str(), d.domain_str())),
        None => None,
    }
}

/// Whether a URL counts as internal under an optional matcher: with no
/// matcher configured every link is external.
pub open spec fn is_internal(url: Seq<char>, m: Option<(Seq<char>, Seq<char>)>) -> bool {
    match m {
        Some(bd) => spec_matches(bd.0, bd.1, url),
        None => false,
    }
}

/// How one link is annotated: internal links get no extra attributes;
/// external links open in a new tab with `rel="noopener noreferrer"`.
pub open spec fn classify(
    url: Seq<char>,
    title: Option<Seq<char>>,
    m: Option<(Seq<char>, Seq<char>)>,
) -> LinkWithTargetView {
    if is_internal(url, m) {
        LinkWithTargetView { url, title, target: None, rel: None }
    } else {
        LinkWithTargetView {
            url,
            title,
            target: Some("_blank"@),
            rel: Some("noopener noreferrer"@),
        }
    }
}

impl LinkWithTarget {
    /// Annotates one link against the optional matcher.
    pub fn new(url: String, title: Option<String>, internal_domain_name: Option<
        &InternalDomain,
    >) -> (r: Self)
        ensures
            r@ == classify(url@, opt_str_view(title), matcher_view(internal_domain_name)),
    {
        if let Some(internal_domain) = internal_domain_name {
            if internal_domain.matches(url.as_str()) {
                return LinkWithTarget { url, title, target: None, rel: None };
            }
        }
        LinkWithTarget {
            url,
            title,
            target: Some("_blank".to_owned()),
            rel: Some("noopener noreferrer".to_owned()),
        }
    }
}

/// What the pass does to one node's variant: the three link-like forms
/// become one annotated link, everything else stays.
pub open spec fn link_kind(k: NodeKindView, m: Option<(Seq<char>, Seq<char>)>) -> NodeKindView {
    match k {
        NodeKindView::Link { url, title } => NodeKindView::AnnotatedLink {
            link: classify(url, title, m),
        },
        NodeKindView::Autolink { url } => NodeKindView::AnnotatedLink {
            link: classify(url, None, m),
        },
        NodeKindView::Linkified { url } => NodeKindView::AnnotatedLink {
            link: classify(url, None, m),
        },
        _ => k,
    }
}

/// The whole tree after the pass: the variant rule applied to every node,
/// children and attributes kept.
pub open spec fn link_pass(n: NodeView, m: Option<(Seq<char>, Seq<char>)>) -> NodeView
    decreases n,
{
    NodeView {
        kind: link_kind(n.kind, m),
        children: Seq::new(
            n.children.len(),
            |i: int|
                if 0 <= i < n.children.len() {
                    link_pass(n.children[i], m)
                } else {
                    empty_node_view()
                },
        ),
        attrs: n.attrs,
    }
}

/// Applies the pass to `n` and everything below it.
#[verifier::loop_isolation(false)]
pub fn run(n: Node, internal_domain: Option<&InternalDomain>) -> (r: Node)
    ensures
        r@ == link_pass(n@, matcher_view(internal_domain)),
    decreases n,
{
    let ghost m = matcher_view(internal_domain);
    let ghost n0 = n;
    let Node { kind, children, attrs } = n;
    let mut rest = children;
    let mut done: Vec<Node> = Vec::new();
    let ghost total = n0.children@.len();
    proof {
        lemma_node_view(n0);
        assert(rest@ =~= n0.children@.subrange(0, total as int));
    }
    while rest.len() > 0
        invariant
            done@.len() + rest@.len() == total,
            rest@ == n0.children@.subrange(done@.len() as int, total as int),
            forall|j: int|
                0 <= j < done@.len() ==> (#[trigger] done@[j])@ == link_pass(n0@.children[j], m),
        decreases rest@.len(),
    {
        let ghost i = done@.len() as int;
        let c = rest.remove(0);
        proof {
            assert(c == n0.children@[i]);
            assert(decreases_to!(n0 => n0.children@[i]));
            assert(rest@ =~= n0.children@.subrange(i + 1, total as int));
        }
        let c2 = run(c, internal_domain);
        done.push(c2);
    }
    let kind2 = match kind {
        NodeKind::Link { url, title } => NodeKind::AnnotatedLink {
            link: LinkWithTarget::new(url, title, internal_domain),
        },
        NodeKind::Autolink { url } => NodeKind::AnnotatedLink {
            link: LinkWithTarget::new(url, None, internal_domain),
        },
        NodeKind::Linkified { url } => NodeKind::AnnotatedLink {
            link: LinkWithTarget::new(url, None, internal_domain),
        },
        other => other,
    };
    let r = Node { kind: kind2, children: done, attrs };
    proof {
        lemma_node_view(r);
        assert(kind_view(r.kind) =~= link_kind(kind_view(n0.kind), m));
        assert(r@.children =~= link_pass(n0@, m).children);
        assert(r@.attrs =~= n0@.attrs);
        assert(r@ =~= link_pass(n0@, m));
    }
    r
}

/// Registers the link classifier on the pipeline.
pub fn add(p: &mut Pipeline)
    ensures
        *final(p) == (Pipeline { link: true, ..*old(p) }),
{
    p.link = true;
}

/// With no matcher configured, every link-like source form (explicit link,
/// autolink, detected URL) becomes an annotated link that opens in a new tab:
/// `target` is `_blank` and `rel` is `noopener noreferrer`.
pub proof fn lemma_unmatched_links_external(k: NodeKindView)
    requires
        k is Link || k is Autolink || k is Linkified,
    ensures
        link_kind(k, None) matches NodeKindView::AnnotatedLink { link } && link.target == Some(
            "_blank"@,
        ) && link.rel == Some("noopener noreferrer"@),
{
}

/// A link whose URL classifies as internal under the configured matcher
/// becomes an annotated link with neither `target` nor `rel`, for all three
/// source forms; its anchor therefore renders with only the `href` (and
/// title) attributes.
pub proof fn lemma_matched_links_internal(k: NodeKindView, base: Seq<char>, internal: Seq<char>)
    requires
        k is Link || k is Autolink || k is Linkified,
        (match k {
            NodeKindView::Link { url, .. } => spec_matches(base, internal, url),
            NodeKindView::Autolink { url } => spec_matches(base, internal, url),
            NodeKindView::Linkified { url } => spec_matches(base, internal, url),
            _ => false,
        }),
    ensures
        link_kind(k, Some((base, internal))) matches NodeKindView::AnnotatedLink { link }
            && link.target is None && link.rel is None,
{
}

/// Every annotated link has `target` and `rel` as a pair: both absent
/// (internal) or both present (external), never one without the other.
pub proof fn lemma_target_rel_paired(
    url: Seq<char>,
    title: Option<Seq<char>>,
    m: Option<(Seq<char>, Seq<char>)>,
)
    ensures
        (classify(url, title, m).target is Some) == (classify(url, title, m).rel is Some),
{
}

/// Whether no raw link-like node (explicit link, autolink, detected URL)
/// stands anywhere in `n`'s subtree.
pub open spec fn links_annotated(n: NodeView) -> bool
    decreases n,
{
    &&& !(n.kind is Link)
    &&& !(n.kind is Autolink)
    &&& !(n.kind is Linkified)
    &&& (forall|i: int| 0 <= i < n.children.len() ==> links_annotated(#[trigger] n.children[i]))
}

/// The pass normalizes all three link-like source forms: afterwards only
/// annotated links remain.
pub proof fn lemma_link_pass_normalizes(n: NodeView, m: Option<(Seq<char>, Seq<char>)>)
    ensures
        links_annotated(link_pass(n, m)),
    decreases n,
{
    let t = link_pass(n, m);
    assert forall|i: int| 0 <= i < t.children.len() implies links_annotated(
        #[trigger] t.children[i],
    ) by {
        lemma_link_pass_normalizes(n.children[i], m);
    }
}

} // verus!
