//! The conversion pipeline and the per-document driver.
//!
//! A `Pipeline` is an explicit value naming which passes run and under which
//! options; the extension modules register themselves on it.  A
//! `MarkdownDriver` owns one pipeline and one parsed document, built in two
//! phases: unparsed, then parsed exactly once; rendering before a parse
//! yields the empty string.
use vstd::prelude::*;

use crate::domain::{spec_internal_domain, InternalDomain};
use crate::heading_level_modification::heading_pass;
use crate::link_with_target::{link_pass, matcher_view};
use crate::node::{Node, NodeView};
use crate::options::{opt_lookup, spec_is_enabled, MarkdonwItOptions};
use crate::renderer::rendered;
use crate::table_decoration::table_pass;
use crate::table_of_contents::toc_run;
use crate::text::{parse_u8, spec_parse_u8};

verus! {

/// The rule pipeline of one conversion: which passes run, and the options.
pub struct Pipeline {
    pub options: Option<MarkdonwItOptions>,
    pub heading: bool,
    pub link: bool,
    pub table: bool,
    pub toc: bool,
    pub emphasis: bool,
}

/// The heading offset the pipeline resolves: the stored option string read
/// as an eight-bit number, with absence and malformation falling back to 0.
pub open spec fn resolved_offset(opt: Option<MarkdonwItOptions>) -> u8 {
    match opt {
        Some(o) => {
            let v = match opt_lookup(o@, "heading_level_offset"@) {
                Some(s) => s,
                None => "0"@,
            };
            match spec_parse_u8(v) {
                Some(x) => x,
                None => 0,
            }
        },
        None => 0,
    }
}

/// The table class the pipeline resolves, `"table"` by default.
pub open spec fn resolved_class(opt: Option<MarkdonwItOptions>) -> Seq<char> {
    match opt {
        Some(o) => match opt_lookup(o@, "table_class_name"@) {
            Some(v) => v,
            None => "table"@,
        },
        None => "table"@,
    }
}

/// The matcher the pipeline resolves: absent when no options or no base
/// domain are configured, or when the configured string has no domain.
pub open spec fn resolved_matcher(opt: Option<MarkdonwItOptions>) -> Option<
    (Seq<char>, Seq<char>),
> {
    match opt {
        Some(o) => match opt_lookup(o@, "internal_domain_name"@) {
            Some(name) => spec_internal_domain(name),
            None => None,
        },
        None => None,
    }
}

/// The tree after the enabled passes run, in their fixed order: heading
/// normalizer, link classifier, table decorator, ToC builder.
pub open spec fn pipeline_spec(p: Pipeline, n: NodeView) -> NodeView {
    let a = if p.heading {
        heading_pass(n, resolved_offset(p.options) as int)
    } else {
        n
    };
    let b = if p.link {
        link_pass(a, resolved_matcher(p.options))
    } else {
        a
    };
    let c = if p.table {
        table_pass(b, resolved_class(p.options))
    } else {
        b
    };
    if p.toc {
        toc_run(c)
    } else {
        c
    }
}

impl Pipeline {
    /// A pipeline with no passes registered and no options attached.
    pub fn new() -> (r: Pipeline)
        ensures
            r.options is None,
            !r.heading,
            !r.link,
            !r.table,
            !r.toc,
            !r.emphasis,
    {
        Pipeline {
            options: None,
            heading: false,
            link: false,
            table: false,
            toc: false,
            emphasis: false,
        }
    }

    /// Runs the enabled passes over `root`, in their fixed order.
    pub fn run(&self, root: Node) -> (r: Node)
        ensures
            r@ == pipeline_spec(*self, root@),
    {
        let mut doc = root;
        if self.heading {
            let offset: u8 = match &self.options {
                Some(o) => {
                    let v = o.get_option_or_default("heading_level_offset", "0");
                    match parse_u8(v.as_str()) {
                        Some(x) => x,
                        None => 0,
                    }
                },
                None => 0,
            };
            doc = crate::heading_level_modification::run(doc, offset);
        }
        if self.link {
            let internal_domain: Option<InternalDomain> = match &self.options {
                Some(o) => o.internal_domain(),
                None => None,
            };
            proof {
                assert(matcher_view(
                    match internal_domain {
                        Some(ref d) => Some(d),
                        None => None,
                    },
                ) == resolved_matcher(self.options));
            }
            doc = crate::link_with_target::run(
                doc,
                match internal_domain {
                    Some(ref d) => Some(d),
                    None => None,
                },
            );
        }
        if self.table {
            let cls: String = match &self.options {
                Some(o) => o.get_option_or_default("table_class_name", "table"),
                None => "table".to_owned(),
            };
            doc = crate::table_decoration::run(doc, cls.as_str());
        }
        if self.toc {
            doc = crate::table_of_contents::run(doc);
        }
        doc
    }
}

/// One document conversion: a pipeline and the parsed document, set at most
/// once.
pub struct MarkdownDriver {
    pipeline: Pipeline,
    contents: Option<Node>,
}

impl MarkdownDriver {
    /// The pipeline this driver was built with.
    pub closed spec fn config(&self) -> Pipeline {
        self.pipeline
    }

    /// The processed document, once one was parsed.
    pub closed spec fn doc(&self) -> Option<Node> {
        self.contents
    }

    /// A driver whose pipeline is assembled from the given options: each of
    /// the three option-gated passes is wired in only if its governing option
    /// is enabled (default true), the table-of-contents builder is wired in
    /// always (no option governs it), and the options are attached for the
    /// passes to read.
    pub fn new(env: Vec<(String, String)>) -> (r: Self)
        ensures
            r.doc() is None,
            r.config().options is Some,
            (r.config().options->0)@ == crate::node::attrs_view(env@),
            r.config().heading == spec_is_enabled(
                crate::node::attrs_view(env@),
                "heading_level_offset"@,
                true,
            ),
            r.config().link == spec_is_enabled(
                crate::node::attrs_view(env@),
                "internal_domain_name"@,
                true,
            ),
            r.config().table == spec_is_enabled(
                crate::node::attrs_view(env@),
                "table_class_name"@,
                true,
            ),
            r.config().toc,
            !r.config().emphasis,
    {
        let mut pipeline = Pipeline::new();
        let option = MarkdonwItOptions::new(env);
        Self::prepare(&mut pipeline, option);
        MarkdownDriver { pipeline, contents: None }
    }

    /// Wires the option-gated passes and the table-of-contents builder into
    /// the pipeline and attaches the options.
    fn prepare(p: &mut Pipeline, option: MarkdonwItOptions)
        ensures
            final(p).options is Some,
            final(p).options->0 == option,
            final(p).heading == (old(p).heading || spec_is_enabled(
                option@,
                "heading_level_offset"@,
                true,
            )),
            final(p).link == (old(p).link || spec_is_enabled(
                option@,
                "internal_domain_name"@,
                true,
            )),
            final(p).table == (old(p).table || spec_is_enabled(
                option@,
                "table_class_name"@,
                true,
            )),
            final(p).toc,
            final(p).emphasis == old(p).emphasis,
    {
        if option.is_enabled("heading_level_offset", true) {
            crate::heading_level_modification::add(p);
        }
        if option.is_enabled("internal_domain_name", true) {
            crate::link_with_target::add(p);
        }
        if option.is_enabled("table_class_name", true) {
            crate::table_decoration::add(p);
        }
        crate::table_of_contents::add(p);
        option.add(p);
    }

    /// Stores the first document: runs the pipeline over `root` and keeps
    /// the result.  A second parse fails and returns the tree untouched.
    pub fn parse(&mut self, root: Node) -> (r: Result<(), Node>)
        ensures
            old(self).doc() is None ==> (match final(self).doc() {
                Some(c) => r is Ok && c@ == pipeline_spec(old(self).config(), root@),
                None => false,
            }),
            old(self).doc() is Some ==> r == Result::<(), Node>::Err(root) && *final(self)
                == *old(self),
            final(self).config() == old(self).config(),
    {
        if self.contents.is_some() {
            return Err(root);
        }
        let doc = self.pipeline.run(root);
        self.contents = Some(doc);
        Ok(())
    }

    /// Renders the stored document, or the empty string when nothing was
    /// parsed.
    pub fn render(&self) -> (r: String)
        ensures
            (match self.doc() {
                None => r@ == Seq::<char>::empty(),
                Some(c) => r@ == rendered(c@),
            }),
    {
        match &self.contents {
            None => String::new(),
            Some(contents) => contents.render(),
        }
    }
}

} // verus!
