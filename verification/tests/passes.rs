//! End-to-end tests: markdown source is parsed by the `markdown-it` parser,
//! the parsed tree is carried over into the library's document tree, the
//! rule passes run, and the library's renderer produces the final HTML.
use markdown_rules::driver::{MarkdownDriver, Pipeline};
use markdown_rules::heading_level_modification;
use markdown_rules::link_with_target;
use markdown_rules::node::{ColumnAlignment, Node, NodeKind};
use markdown_rules::options::MarkdonwItOptions;
use markdown_rules::table_decoration;
use markdown_rules::table_of_contents;

use markdown_it::parser::inline::{Text, TextSpecial};
use markdown_it::plugins::cmark::block::blockquote::Blockquote;
use markdown_it::plugins::cmark::block::code::CodeBlock;
use markdown_it::plugins::cmark::block::fence::CodeFence;
use markdown_it::plugins::cmark::block::heading::ATXHeading;
use markdown_it::plugins::cmark::block::hr::ThematicBreak;
use markdown_it::plugins::cmark::block::list::{BulletList, ListItem, OrderedList};
use markdown_it::plugins::cmark::block::paragraph::Paragraph;
use markdown_it::plugins::cmark::inline::backticks::CodeInline;
use markdown_it::plugins::cmark::inline::autolink::Autolink;
use markdown_it::plugins::cmark::inline::emphasis::{Em, Strong};
use markdown_it::plugins::cmark::inline::link::Link;
use markdown_it::plugins::cmark::inline::newline::{Hardbreak, Softbreak};
use markdown_it::plugins::extra::linkify::Linkified;
use markdown_it::plugins::extra::strikethrough::Strikethrough;
use markdown_it::plugins::extra::tables::{
    ColumnAlignment as ParsedAlignment, Table, TableBody, TableCell, TableHead, TableRow,
};
use markdown_it::plugins::html::html_block::HtmlBlock;
use markdown_it::plugins::html::html_inline::HtmlInline;

fn carry_alignment(a: ParsedAlignment) -> ColumnAlignment {
    match a {
        ParsedAlignment::None => ColumnAlignment::Unaligned,
        ParsedAlignment::Left => ColumnAlignment::Left,
        ParsedAlignment::Right => ColumnAlignment::Right,
        ParsedAlignment::Center => ColumnAlignment::Center,
    }
}

fn carry_root(parsed: &markdown_it::Node) -> Node {
    // the top node of a parsed document is its root; only its children are
    // typed constructs
    let mut out = Node::new(NodeKind::Root);
    for child in parsed.children.iter() {
        out.children.push(carry_node(child));
    }
    for (name, value) in parsed.attrs.iter() {
        out.attrs.push(((*name).to_string(), value.clone()));
    }
    out
}

fn carry_node(n: &markdown_it::Node) -> Node {
    let kind = if n.cast::<Paragraph>().is_some() {
        NodeKind::Paragraph
    } else if let Some(h) = n.cast::<ATXHeading>() {
        NodeKind::Heading { level: h.level }
    } else if let Some(t) = n.cast::<Text>() {
        NodeKind::Text { content: t.content.clone() }
    } else if let Some(t) = n.cast::<TextSpecial>() {
        NodeKind::Text { content: t.content.clone() }
    } else if let Some(l) = n.cast::<Link>() {
        NodeKind::Link { url: l.url.clone(), title: l.title.clone() }
    } else if let Some(l) = n.cast::<Autolink>() {
        NodeKind::Autolink { url: l.url.clone() }
    } else if let Some(l) = n.cast::<Linkified>() {
        NodeKind::Linkified { url: l.url.clone() }
    } else if let Some(e) = n.cast::<Em>() {
        NodeKind::Em { marker: e.marker }
    } else if let Some(e) = n.cast::<Strong>() {
        NodeKind::Strong { marker: e.marker }
    } else if n.cast::<Softbreak>().is_some() {
        NodeKind::Softbreak
    } else if n.cast::<Hardbreak>().is_some() {
        NodeKind::Hardbreak
    } else if let Some(t) = n.cast::<Table>() {
        NodeKind::Table {
            alignments: t.alignments.iter().copied().map(carry_alignment).collect(),
        }
    } else if n.cast::<TableHead>().is_some() {
        NodeKind::TableHead
    } else if n.cast::<TableBody>().is_some() {
        NodeKind::TableBody
    } else if n.cast::<TableRow>().is_some() {
        NodeKind::TableRow
    } else if n.cast::<TableCell>().is_some() {
        NodeKind::TableCell
    } else if let Some(h) = n.cast::<HtmlBlock>() {
        NodeKind::HtmlBlock { content: h.content.clone() }
    } else if let Some(h) = n.cast::<HtmlInline>() {
        NodeKind::HtmlInline { content: h.content.clone() }
    } else if n.cast::<Blockquote>().is_some() {
        NodeKind::Blockquote
    } else if let Some(l) = n.cast::<BulletList>() {
        NodeKind::BulletList { marker: l.marker }
    } else if let Some(l) = n.cast::<OrderedList>() {
        NodeKind::OrderedList { start: l.start, marker: l.marker }
    } else if n.cast::<ListItem>().is_some() {
        NodeKind::ListItem
    } else if let Some(c) = n.cast::<CodeBlock>() {
        NodeKind::CodeBlock { content: c.content.clone() }
    } else if let Some(c) = n.cast::<CodeFence>() {
        // the fence's language class, derived as its renderer derives it
        let info = markdown_it::common::utils::unescape_all(&c.info);
        let lang = info.split_whitespace().next().unwrap_or("");
        let class = if lang.is_empty() {
            None
        } else {
            Some(format!("{}{}", c.lang_prefix, lang))
        };
        NodeKind::CodeFence { content: c.content.clone(), class }
    } else if let Some(c) = n.cast::<CodeInline>() {
        NodeKind::CodeInline { marker: c.marker }
    } else if n.cast::<ThematicBreak>().is_some() {
        NodeKind::ThematicBreak
    } else if let Some(e) = n.cast::<Strikethrough>() {
        NodeKind::Strikethrough { marker: e.marker }
    } else {
        panic!("unexpected node kind in parsed tree");
    };
    let mut out = Node::new(kind);
    for child in n.children.iter() {
        out.children.push(carry_node(child));
    }
    for (name, value) in n.attrs.iter() {
        out.attrs.push(((*name).to_string(), value.clone()));
    }
    out
}

fn cmark_parser() -> markdown_it::MarkdownIt {
    let mut md = markdown_it::MarkdownIt::new();
    markdown_it::plugins::cmark::add(&mut md);
    md
}

fn full_parser() -> markdown_it::MarkdownIt {
    let mut md = markdown_it::MarkdownIt::new();
    markdown_it::plugins::cmark::add(&mut md);
    markdown_it::plugins::extra::add(&mut md);
    md
}

fn render_with(p: &Pipeline, md: &markdown_it::MarkdownIt, src: &str) -> String {
    let parsed = md.parse(src);
    let root = carry_root(&parsed);
    p.run(root).render()
}

#[test]
fn test_heading_modification() {
    let md = cmark_parser();
    let mut p = Pipeline::new();
    heading_level_modification::add(&mut p);

    {
        // without options
        {
            // for heading levels out of the accepted range (h7)
            let src = "####### heading 7";
            let html = render_with(&p, &md, src);
            assert_eq!(html, "<p>####### heading 7</p>\n");
        }

        {
            // for heading levels within the accepted range(h1-h6)
            let src = "# heading 1";
            let html = render_with(&p, &md, src);
            assert_eq!(html, "<h1>heading 1</h1>\n");

            let src = "### heading 3";
            let html = render_with(&p, &md, src);
            assert_eq!(html, "<h3>heading 3</h3>\n");

            let src = "###### heading 6";
            let html = render_with(&p, &md, src);
            assert_eq!(html, "<h6>heading 6</h6>\n");
        }

        let src =
            "# heading 1\n## heading 2\n### heading 3\n#### heading 4\n##### heading 5\n###### heading 6\n####### heading 7";
        let html = render_with(&p, &md, src);

        assert_eq!(
            html,
            "<h1>heading 1</h1>\n<h2>heading 2</h2>\n<h3>heading 3</h3>\n<h4>heading 4</h4>\n<h5>heading 5</h5>\n<h6>heading 6</h6>\n<p>####### heading 7</p>\n"
            );
    }

    {
        // with options
        let options = MarkdonwItOptions::new(vec![(
            "heading_level_offset".to_string(),
            "3".to_string(),
        )]);
        options.add(&mut p);
        {
            // for heading levels out of the accepted range (h4 - shifted to h7)
            let src = "#### heading 4";
            let html = render_with(&p, &md, src);
            assert_eq!(html, "<p>#### heading 4</p>\n");
        }

        {
            // for heading levels within the accepted range(h1-h3)
            let src = "# heading 1";
            let html = render_with(&p, &md, src);
            assert_eq!(html, "<h4>heading 1</h4>\n");

            let src = "## heading 2";
            let html = render_with(&p, &md, src);
            assert_eq!(html, "<h5>heading 2</h5>\n");

            let src = "### heading 3";
            let html = render_with(&p, &md, src);
            assert_eq!(html, "<h6>heading 3</h6>\n");
        }

        let src =
            "# heading 1\n## heading 2\n### heading 3\n#### heading 4\n##### heading 5\n###### heading 6\n####### heading 7";
        let html = render_with(&p, &md, src);

        assert_eq!(
            html,
            "<h4>heading 1</h4>\n<h5>heading 2</h5>\n<h6>heading 3</h6>\n<p>#### heading 4</p>\n<p>##### heading 5</p>\n<p>###### heading 6</p>\n<p>####### heading 7</p>\n"
            );
    }
}

#[test]
fn test_table_decoration() {
    let md = full_parser();
    let mut p = Pipeline::new();
    table_decoration::add(&mut p);

    {
        // without options
        let src = "| 左寄せタイトル | センタリング | 右寄せタイトル |\n |:------------|:------------:|-----------:|\n | column | column | column |\n";
        let html = render_with(&p, &md, src);

        assert_eq!(
            html,
            "<table class=\"table\">\n<thead>\n<tr>\n<th style=\"text-align:left\">左寄せタイトル</th>\n<th style=\"text-align:center\">センタリング</th>\n<th style=\"text-align:right\">右寄せタイトル</th>\n</tr>\n</thead>\n<tbody>\n<tr>\n<td style=\"text-align:left\">column</td>\n<td style=\"text-align:center\">column</td>\n<td style=\"text-align:right\">column</td>\n</tr>\n</tbody>\n</table>\n"
        )
    }

    {
        // with options
        let options = MarkdonwItOptions::new(vec![(
            "table_class_name".to_string(),
            "custom-table-class-name".to_string(),
        )]);
        options.add(&mut p);

        let src = "| 左寄せタイトル | センタリング | 右寄せタイトル |\n |:------------|:------------:|-----------:|\n | column | column | column |\n";
        let html = render_with(&p, &md, src);

        assert_eq!(
            html,
            "<table class=\"custom-table-class-name\">\n<thead>\n<tr>\n<th style=\"text-align:left\">左寄せタイトル</th>\n<th style=\"text-align:center\">センタリング</th>\n<th style=\"text-align:right\">右寄せタイトル</th>\n</tr>\n</thead>\n<tbody>\n<tr>\n<td style=\"text-align:left\">column</td>\n<td style=\"text-align:center\">column</td>\n<td style=\"text-align:right\">column</td>\n</tr>\n</tbody>\n</table>\n"
        )
    }
}

#[test]
fn test_toc_end_to_end() {
    // headings normalized with a zero offset, then collected into the ToC:
    // only the level-2 and level-3 headings qualify, in document order.
    let md = cmark_parser();
    let mut p = Pipeline::new();
    heading_level_modification::add(&mut p);
    table_of_contents::add(&mut p);
    let options = MarkdonwItOptions::new(vec![(
        "heading_level_offset".to_string(),
        "0".to_string(),
    )]);
    options.add(&mut p);

    let parsed = md.parse("# T1\n## T2\n### T3");
    let doc = p.run(carry_root(&parsed));

    // the synthesized ToC node is the last child of the root
    let last = doc.children.last().expect("root has children");
    match &last.kind {
        NodeKind::ToCList { list } => {
            assert_eq!(list.elements.len(), 2);
            assert_eq!(list.elements[0].id, "heading-0");
            assert_eq!(list.elements[0].level, 2);
            assert_eq!(list.elements[0].text, "T2");
            assert_eq!(list.elements[1].id, "heading-1");
            assert_eq!(list.elements[1].level, 3);
            assert_eq!(list.elements[1].text, "T3");
        },
        _ => panic!("last root child is not the ToC node"),
    }

    let html = doc.render();
    assert_eq!(
        html,
        "<h1>T1</h1>\n<h2 id=\"heading-0\">T2</h2>\n<h3 id=\"heading-1\">T3</h3>\n<h2 class=\"table-of-contents\">Table of Contents</h2>\n<ul class=\"table-of-contents\">\n<li class=\"table-of-contents\"><a href=\"#heading-0\" class=\"toc-level-2\">T2</a></li>\n<li class=\"table-of-contents\"><a href=\"#heading-1\" class=\"toc-level-3\">T3</a></li>\n</ul>\n"
    );
}

#[test]
fn test_heading_overflow_paragraph() {
    // seven markers never form a heading: the text comes through as a
    // paragraph that still starts with the seven markers and a space
    let md = cmark_parser();
    let mut p = Pipeline::new();
    heading_level_modification::add(&mut p);
    let html = render_with(&p, &md, "####### overflow");
    assert_eq!(html, "<p>####### overflow</p>\n");
    assert!(html.starts_with("<p>####### "));
}

#[test]
fn test_link_with_target() {
    let md = full_parser();
    let mut p = Pipeline::new();
    link_with_target::add(&mut p);

    {
        // without options
        {
            // for non-autolink (custom links)
            {
                // with scheme part
                {
                    // with base_url that has scheme part
                    let src = "[some title](https://kyoto.dosue.jp/foo/bar)";
                    let html = render_with(&p, &md, src);
                    assert_eq!(
                        html,
                        "<p><a href=\"https://kyoto.dosue.jp/foo/bar\" target=\"_blank\" rel=\"noopener noreferrer\">some title</a></p>\n"
                    );
                }
                {
                    // with base_url with http scheme
                    let src = "[some title](http://kyoto.dosue.jp/foo/bar)";
                    let html = render_with(&p, &md, src);
                    assert_eq!(
                        html,
                        "<p><a href=\"http://kyoto.dosue.jp/foo/bar\" target=\"_blank\" rel=\"noopener noreferrer\">some title</a></p>\n"
                    );
                }
                {
                    // with subdomain of base_url
                    let src = "[some title](https://fuji.kyoto.dosue.jp/foo/bar)";
                    let html = render_with(&p, &md, src);
                    assert_eq!(
                        html,
                        "<p><a href=\"https://fuji.kyoto.dosue.jp/foo/bar\" target=\"_blank\" rel=\"noopener noreferrer\">some title</a></p>\n"
                    );
                }
                {
                    // with 'parent' domain of base_url
                    // this should be treated as external link
                    let src = "[some title](https://dosue.jp/foo/bar)";
                    let html = render_with(&p, &md, src);
                    assert_eq!(
                        html,
                        "<p><a href=\"https://dosue.jp/foo/bar\" target=\"_blank\" rel=\"noopener noreferrer\">some title</a></p>\n"
                        );
                }
                {
                    // with different domain
                    let src = "[some title](https://nara.jp/foo/bar)";
                    let html = render_with(&p, &md, src);
                    assert_eq!(
                        html,
                        "<p><a href=\"https://nara.jp/foo/bar\" target=\"_blank\" rel=\"noopener noreferrer\">some title</a></p>\n"
                        );
                }
            }
            {
                // without sheme part
                {
                    // domain part is the same as base_url
                    let src = "[some title](kyoto.dosue.jp/foo/bar)";
                    let html = render_with(&p, &md, src);
                    assert_eq!(
                        html,
                        "<p><a href=\"kyoto.dosue.jp/foo/bar\" target=\"_blank\" rel=\"noopener noreferrer\">some title</a></p>\n"
                    );
                }
                {
                    // domain part is different from base_url
                    // NOTE: for simplicity, any url without scheme part is treated as "internal" link
                    let src = "[some title](dosue.jp/foo/bar)";
                    let html = render_with(&p, &md, src);
                    assert_eq!(html, "<p><a href=\"dosue.jp/foo/bar\" target=\"_blank\" rel=\"noopener noreferrer\">some title</a></p>\n");
                }
                {
                    // without domain part
                    let src = "[some title](foo/bar)";
                    let html = render_with(&p, &md, src);
                    assert_eq!(html, "<p><a href=\"foo/bar\" target=\"_blank\" rel=\"noopener noreferrer\">some title</a></p>\n");
                }
                {
                    // with filename
                    let src = "[some title](foo.jpg)";
                    let html = render_with(&p, &md, src);
                    assert_eq!(html, "<p><a href=\"foo.jpg\" target=\"_blank\" rel=\"noopener noreferrer\">some title</a></p>\n");
                }
            }
        }
        {
            // for autolink urls
            {
                // with base_url
                let src = "<https://kyoto.dosue.jp>";
                let html = render_with(&p, &md, src);
                assert_eq!(
                    html,
                    "<p><a href=\"https://kyoto.dosue.jp\" target=\"_blank\" rel=\"noopener noreferrer\">kyoto.dosue.jp</a></p>\n"
                );
            }
            {
                // with child domain of base_url
                let src = "<https://pontocho.kyoto.dosue.jp>";
                let html = render_with(&p, &md, src);
                assert_eq!(
                    html,
                    "<p><a href=\"https://pontocho.kyoto.dosue.jp\" target=\"_blank\" rel=\"noopener noreferrer\">pontocho.kyoto.dosue.jp</a></p>\n"
                    );
            }
            {
                // with parent domain of base_url
                let src = "<https://dosue.jp>";
                let html = render_with(&p, &md, src);
                assert_eq!(
                    html,
                    "<p><a href=\"https://dosue.jp\" target=\"_blank\" rel=\"noopener noreferrer\">dosue.jp</a></p>\n"
                    );
            }
            {
                // with base_url, with http scheme
                let src = "<http://kyoto.dosue.jp>";
                let html = render_with(&p, &md, src);
                assert_eq!(
                    html,
                    "<p><a href=\"http://kyoto.dosue.jp\" target=\"_blank\" rel=\"noopener noreferrer\">kyoto.dosue.jp</a></p>\n"
                );
            }
            {
                // external links
                let src = "<https://nara.jp>";
                let html = render_with(&p, &md, src);
                assert_eq!(html, "<p><a href=\"https://nara.jp\" target=\"_blank\" rel=\"noopener noreferrer\">nara.jp</a></p>\n");
            }
        }
        {
            // for linkified urls
            {
                // with base_url
                let src = "https://kyoto.dosue.jp";
                let html = render_with(&p, &md, src);
                assert_eq!(
                    html,
                    "<p><a href=\"https://kyoto.dosue.jp\" target=\"_blank\" rel=\"noopener noreferrer\">kyoto.dosue.jp</a></p>\n"
                );
            }
            {
                // with child domain of base_url
                let src = "https://pontocho.kyoto.dosue.jp";
                let html = render_with(&p, &md, src);
                assert_eq!(
                    html,
                    "<p><a href=\"https://pontocho.kyoto.dosue.jp\" target=\"_blank\" rel=\"noopener noreferrer\">pontocho.kyoto.dosue.jp</a></p>\n"
                    );
            }
            {
                // with parent domain of base_url
                let src = "https://dosue.jp";
                let html = render_with(&p, &md, src);
                assert_eq!(
                    html,
                    "<p><a href=\"https://dosue.jp\" target=\"_blank\" rel=\"noopener noreferrer\">dosue.jp</a></p>\n"
                    );
            }
            {
                // with base_url, with http scheme
                let src = "http://kyoto.dosue.jp";
                let html = render_with(&p, &md, src);
                assert_eq!(
                    html,
                    "<p><a href=\"http://kyoto.dosue.jp\" target=\"_blank\" rel=\"noopener noreferrer\">kyoto.dosue.jp</a></p>\n"
                );
            }
            {
                // external links
                let src = "https://nara.jp";
                let html = render_with(&p, &md, src);
                assert_eq!(html, "<p><a href=\"https://nara.jp\" target=\"_blank\" rel=\"noopener noreferrer\">nara.jp</a></p>\n");
            }
        }
    }

    {
        // with options
        let base_url = "https://kyoto.dosue.jp".to_string();
        let options = MarkdonwItOptions::new(vec![(
            "internal_domain_name".to_string(),
            base_url.to_string(),
        )]);
        options.add(&mut p);

        {
            // for non-autolink (custom links)
            {
                // with scheme part
                {
                    // with base_url that has scheme part
                    let src = "[some title](https://kyoto.dosue.jp/foo/bar)";
                    let html = render_with(&p, &md, src);
                    assert_eq!(
                        html,
                        "<p><a href=\"https://kyoto.dosue.jp/foo/bar\">some title</a></p>\n"
                    );
                }
                {
                    // with base_url with http scheme
                    let src = "[some title](http://kyoto.dosue.jp/foo/bar)";
                    let html = render_with(&p, &md, src);
                    assert_eq!(
                        html,
                        "<p><a href=\"http://kyoto.dosue.jp/foo/bar\">some title</a></p>\n"
                    );
                }
                {
                    // with subdomain of base_url
                    let src = "[some title](https://fuji.kyoto.dosue.jp/foo/bar)";
                    let html = render_with(&p, &md, src);
                    assert_eq!(
                        html,
                        "<p><a href=\"https://fuji.kyoto.dosue.jp/foo/bar\">some title</a></p>\n"
                    );
                }
                {
                    // with 'parent' domain of base_url
                    // this should be treated as external link
                    let src = "[some title](https://dosue.jp/foo/bar)";
                    let html = render_with(&p, &md, src);
                    assert_eq!(
                        html,
                        "<p><a href=\"https://dosue.jp/foo/bar\" target=\"_blank\" rel=\"noopener noreferrer\">some title</a></p>\n"
                        );
                }
                {
                    // with different domain
                    let src = "[some title](https://nara.jp/foo/bar)";
                    let html = render_with(&p, &md, src);
                    assert_eq!(
                        html,
                        "<p><a href=\"https://nara.jp/foo/bar\" target=\"_blank\" rel=\"noopener noreferrer\">some title</a></p>\n"
                        );
                }
            }
            {
                // without sheme part
                {
                    // domain part is the same as base_url
                    let src = "[some title](kyoto.dosue.jp/foo/bar)";
                    let html = render_with(&p, &md, src);
                    assert_eq!(
                        html,
                        "<p><a href=\"kyoto.dosue.jp/foo/bar\">some title</a></p>\n"
                    );
                }
                {
                    // domain part is different from base_url
                    // NOTE: for simplicity, any url without scheme part is treated as "internal" link
                    let src = "[some title](dosue.jp/foo/bar)";
                    let html = render_with(&p, &md, src);
                    assert_eq!(html, "<p><a href=\"dosue.jp/foo/bar\">some title</a></p>\n");
                }
                {
                    // without domain part
                    let src = "[some title](foo/bar)";
                    let html = render_with(&p, &md, src);
                    assert_eq!(html, "<p><a href=\"foo/bar\">some title</a></p>\n");
                }
                {
                    // with filename
                    let src = "[some title](foo.jpg)";
                    let html = render_with(&p, &md, src);
                    assert_eq!(html, "<p><a href=\"foo.jpg\">some title</a></p>\n");
                }
            }
        }
        {
            // for autolink urls
            {
                // with base_url
                let src = "<https://kyoto.dosue.jp>";
                let html = render_with(&p, &md, src);
                assert_eq!(
                    html,
                    "<p><a href=\"https://kyoto.dosue.jp\">kyoto.dosue.jp</a></p>\n"
                );
            }
            {
                // with child domain of base_url
                let src = "<https://pontocho.kyoto.dosue.jp>";
                let html = render_with(&p, &md, src);
                assert_eq!(
                    html,
                    "<p><a href=\"https://pontocho.kyoto.dosue.jp\">pontocho.kyoto.dosue.jp</a></p>\n"
                    );
            }
            {
                // with parent domain of base_url
                let src = "<https://dosue.jp>";
                let html = render_with(&p, &md, src);
                assert_eq!(
                    html,
                    "<p><a href=\"https://dosue.jp\" target=\"_blank\" rel=\"noopener noreferrer\">dosue.jp</a></p>\n"
                    );
            }
            {
                // with base_url, with http scheme
                let src = "<http://kyoto.dosue.jp>";
                let html = render_with(&p, &md, src);
                assert_eq!(
                    html,
                    "<p><a href=\"http://kyoto.dosue.jp\">kyoto.dosue.jp</a></p>\n"
                );
            }
            {
                // external links
                let src = "<https://nara.jp>";
                let html = render_with(&p, &md, src);
                assert_eq!(html, "<p><a href=\"https://nara.jp\" target=\"_blank\" rel=\"noopener noreferrer\">nara.jp</a></p>\n");
            }
        }
        {
            // for linkified urls
            {
                // with base_url
                let src = "https://kyoto.dosue.jp";
                let html = render_with(&p, &md, src);
                assert_eq!(
                    html,
                    "<p><a href=\"https://kyoto.dosue.jp\">kyoto.dosue.jp</a></p>\n"
                );
            }
            {
                // with child domain of base_url
                let src = "https://pontocho.kyoto.dosue.jp";
                let html = render_with(&p, &md, src);
                assert_eq!(
                    html,
                    "<p><a href=\"https://pontocho.kyoto.dosue.jp\">pontocho.kyoto.dosue.jp</a></p>\n"
                    );
            }
            {
                // with parent domain of base_url
                let src = "https://dosue.jp";
                let html = render_with(&p, &md, src);
                assert_eq!(
                    html,
                    "<p><a href=\"https://dosue.jp\" target=\"_blank\" rel=\"noopener noreferrer\">dosue.jp</a></p>\n"
                    );
            }
            {
                // with base_url, with http scheme
                let src = "http://kyoto.dosue.jp";
                let html = render_with(&p, &md, src);
                assert_eq!(
                    html,
                    "<p><a href=\"http://kyoto.dosue.jp\">kyoto.dosue.jp</a></p>\n"
                );
            }
            {
                // external links
                let src = "https://nara.jp";
                let html = render_with(&p, &md, src);
                assert_eq!(html, "<p><a href=\"https://nara.jp\" target=\"_blank\" rel=\"noopener noreferrer\">nara.jp</a></p>\n");
            }
        }
    }
}

#[test]
fn test_convert_pipeline_includes_toc() {
    // a conversion configured only with a zero heading offset still ends
    // with the table-of-contents builder: the two qualifying headings get
    // entries, the level-1 heading is excluded and unmodified
    let md = cmark_parser();
    let mut driver = MarkdownDriver::new(vec![(
        "heading_level_offset".to_string(),
        "0".to_string(),
    )]);
    let parsed = md.parse("# T1\n## T2\n### T3");
    assert!(driver.parse(carry_root(&parsed)).is_ok());
    assert_eq!(
        driver.render(),
        "<h1>T1</h1>\n<h2 id=\"heading-0\">T2</h2>\n<h3 id=\"heading-1\">T3</h3>\n<h2 class=\"table-of-contents\">Table of Contents</h2>\n<ul class=\"table-of-contents\">\n<li class=\"table-of-contents\"><a href=\"#heading-0\" class=\"toc-level-2\">T2</a></li>\n<li class=\"table-of-contents\"><a href=\"#heading-1\" class=\"toc-level-3\">T3</a></li>\n</ul>\n"
    );
}

#[test]
fn test_links_inside_containers_classified() {
    // the classifier reaches links nested in blockquotes and lists
    let md = full_parser();
    let mut p = Pipeline::new();
    link_with_target::add(&mut p);

    let src = "> [q](https://nara.jp/x)\n\n- [i](https://nara.jp/y)\n- plain\n\n---\n";
    let html = render_with(&p, &md, src);
    assert_eq!(
        html,
        "<blockquote>\n<p><a href=\"https://nara.jp/x\" target=\"_blank\" rel=\"noopener noreferrer\">q</a></p>\n</blockquote>\n<ul>\n<li><a href=\"https://nara.jp/y\" target=\"_blank\" rel=\"noopener noreferrer\">i</a></li>\n<li>plain</li>\n</ul>\n<hr>\n"
    );
}
