//! Tests over hand-built document trees: the flattening renderer, the ToC
//! builder, the driver's two-phase life cycle, the custom emphasis renders,
//! and the plain-value helpers.
use markdown_rules::driver::{MarkdownDriver, Pipeline};
use markdown_rules::emphasis::{Highlighted, RedColored, Underlined};
use markdown_rules::heading_level_modification;
use markdown_rules::link_with_target;
use markdown_rules::node::{ColumnAlignment, Node, NodeKind};
use markdown_rules::table_decoration;
use markdown_rules::table_of_contents::{self, PlainTextRenderer};
use markdown_rules::text::{escape_into, parse_u8, repeat_char_string, replace_nulls, usize_to_dec};

fn text_node(s: &str) -> Node {
    Node::new(NodeKind::Text { content: s.to_string() })
}

#[test]
fn test_flatten_strips_nested_markup() {
    // a heading holding an emphasis span inside a highlight span flattens to
    // the concatenated escaped text alone
    let mut em = Node::new(NodeKind::Em { marker: '*' });
    em.children.push(text_node("b<c"));
    let mut mark = Node::new(NodeKind::Highlighted { hl: Highlighted { marker: '=' } });
    mark.children.push(text_node("a"));
    mark.children.push(em);
    let mut heading = Node::new(NodeKind::Heading { level: 2 });
    heading.children.push(mark);
    heading.children.push(text_node(" d"));

    let mut fmt = PlainTextRenderer::new();
    fmt.render(&heading);
    assert_eq!(fmt.into_string(), "ab&lt;c d");
}

#[test]
fn test_plain_text_renderer_raw_and_breaks() {
    // raw content passes through unescaped; line breaks write nothing
    let mut p = Node::new(NodeKind::Paragraph);
    p.children.push(Node::new(NodeKind::HtmlInline { content: "<b>".to_string() }));
    p.children.push(text_node("x"));
    p.children.push(Node::new(NodeKind::Softbreak));
    p.children.push(text_node("y"));
    p.children.push(Node::new(NodeKind::Hardbreak));

    let mut fmt = PlainTextRenderer::new();
    fmt.render(&p);
    assert_eq!(fmt.into_string(), "<b>xy");
}

#[test]
fn test_toc_ids_and_levels() {
    // levels 1, 5 and 6 are skipped; qualifying headings get consecutive ids
    let mut root = Node::new(NodeKind::Root);
    for (level, label) in [(1u8, "a"), (2, "b"), (4, "c"), (5, "d"), (3, "e")] {
        let mut h = Node::new(NodeKind::Heading { level });
        h.children.push(text_node(label));
        root.children.push(h);
    }
    let out = table_of_contents::run(root);

    assert_eq!(out.children.len(), 6);
    // untouched headings carry no id attribute
    assert!(out.children[0].attrs.is_empty());
    assert!(out.children[3].attrs.is_empty());
    // qualifying headings carry their assigned id
    assert_eq!(out.children[1].attrs, vec![("id".to_string(), "heading-0".to_string())]);
    assert_eq!(out.children[2].attrs, vec![("id".to_string(), "heading-1".to_string())]);
    assert_eq!(out.children[4].attrs, vec![("id".to_string(), "heading-2".to_string())]);

    match &out.children[5].kind {
        NodeKind::ToCList { list } => {
            let ids: Vec<&str> = list.elements.iter().map(|e| e.id.as_str()).collect();
            assert_eq!(ids, vec!["heading-0", "heading-1", "heading-2"]);
            let levels: Vec<u32> = list.elements.iter().map(|e| e.level).collect();
            assert_eq!(levels, vec![2, 4, 3]);
            let texts: Vec<&str> = list.elements.iter().map(|e| e.text.as_str()).collect();
            assert_eq!(texts, vec!["b", "c", "e"]);
        },
        _ => panic!("last root child is not the ToC node"),
    }
}

#[test]
fn test_table_decoration_discards_prior_attrs() {
    // whatever attributes a table carried, afterwards it has exactly one
    let mut table = Node::new(NodeKind::Table { alignments: vec![ColumnAlignment::Left] });
    table.attrs.push(("class".to_string(), "old".to_string()));
    table.attrs.push(("data-x".to_string(), "1".to_string()));
    let mut root = Node::new(NodeKind::Root);
    root.children.push(table);

    let out = table_decoration::run(root, "fancy");
    assert_eq!(
        out.children[0].attrs,
        vec![("class".to_string(), "fancy".to_string())]
    );
}

#[test]
fn test_custom_emphasis_rendering() {
    let mut mark = Node::new(NodeKind::Highlighted { hl: Highlighted { marker: '=' } });
    mark.children.push(text_node("hi"));
    assert_eq!(mark.render(), "<mark>hi</mark>");

    let mut red = Node::new(NodeKind::RedColored { red: RedColored { marker: '+' } });
    red.children.push(text_node("hi"));
    assert_eq!(red.render(), "<strong class=\"font-color-red\">hi</strong>");

    let mut und = Node::new(NodeKind::Underlined { und: Underlined { marker: '_' } });
    und.children.push(text_node("hi"));
    assert_eq!(und.render(), "<u>hi</u>");
}

#[test]
fn test_driver_two_phase() {
    // render before parse yields the empty string; the first parse succeeds;
    // a second parse fails and hands the tree back
    let mut driver = MarkdownDriver::new(vec![(
        "heading_level_offset".to_string(),
        "1".to_string(),
    )]);
    assert_eq!(driver.render(), "");

    let mut root = Node::new(NodeKind::Root);
    let mut h = Node::new(NodeKind::Heading { level: 1 });
    h.children.push(text_node("t"));
    root.children.push(h);
    let expected = "<h2 id=\"heading-0\">t</h2>\n<h2 class=\"table-of-contents\">Table of Contents</h2>\n<ul class=\"table-of-contents\">\n<li class=\"table-of-contents\"><a href=\"#heading-0\" class=\"toc-level-2\">t</a></li>\n</ul>\n";
    assert!(driver.parse(root).is_ok());
    assert_eq!(driver.render(), expected);

    let second = Node::new(NodeKind::Root);
    let refused = driver.parse(second);
    assert!(refused.is_err());
    // the first document is still the one rendered
    assert_eq!(driver.render(), expected);
}

#[test]
fn test_driver_gates_follow_options() {
    // a pass whose governing option is set to "false" is not wired in: the
    // heading offset option below is disabled, so levels stay as they are
    let mut driver = MarkdownDriver::new(vec![
        ("heading_level_offset".to_string(), "false".to_string()),
        ("internal_domain_name".to_string(), "https://shizuoka.jp".to_string()),
    ]);
    let mut root = Node::new(NodeKind::Root);
    let mut h = Node::new(NodeKind::Heading { level: 3 });
    h.children.push(text_node("t"));
    root.children.push(h);
    let mut para = Node::new(NodeKind::Paragraph);
    para.children.push(Node::new(NodeKind::Link {
        url: "https://fuji.shizuoka.jp/x".to_string(),
        title: None,
    }));
    root.children.push(para);
    assert!(driver.parse(root).is_ok());
    assert_eq!(
        driver.render(),
        "<h3 id=\"heading-0\">t</h3>\n<p><a href=\"https://fuji.shizuoka.jp/x\"></a></p>\n<h2 class=\"table-of-contents\">Table of Contents</h2>\n<ul class=\"table-of-contents\">\n<li class=\"table-of-contents\"><a href=\"#heading-0\" class=\"toc-level-3\">t</a></li>\n</ul>\n"
    );
}

#[test]
fn test_annotated_link_render_with_title() {
    // an external link keeps its title after target and rel
    let mut p = Node::new(NodeKind::Root);
    let mut para = Node::new(NodeKind::Paragraph);
    para.children.push(Node::new(NodeKind::Link {
        url: "https://nara.jp/x".to_string(),
        title: Some("a \"quoted\" title".to_string()),
    }));
    p.children.push(para);
    let out = link_with_target::run(p, None);
    assert_eq!(
        out.render(),
        "<p><a href=\"https://nara.jp/x\" target=\"_blank\" rel=\"noopener noreferrer\" title=\"a &quot;quoted&quot; title\"></a></p>\n"
    );
}

#[test]
fn test_heading_offset_parsing() {
    // the offset option is read as str::parse::<u8> reads it
    assert_eq!(parse_u8("0"), Some(0));
    assert_eq!(parse_u8("3"), Some(3));
    assert_eq!(parse_u8("+3"), Some(3));
    assert_eq!(parse_u8("007"), Some(7));
    assert_eq!(parse_u8("255"), Some(255));
    assert_eq!(parse_u8("256"), None);
    assert_eq!(parse_u8(""), None);
    assert_eq!(parse_u8("+"), None);
    assert_eq!(parse_u8("-1"), None);
    assert_eq!(parse_u8("2x"), None);
    assert_eq!(parse_u8(" 2"), None);

    // these are exactly the standard library's readings
    assert_eq!(parse_u8("+3"), "+3".parse::<u8>().ok());
    assert_eq!(parse_u8("256"), "256".parse::<u8>().ok());
    assert_eq!(parse_u8("007"), "007".parse::<u8>().ok());

    // an unparsable offset falls back to zero
    let mut driver = MarkdownDriver::new(vec![(
        "heading_level_offset".to_string(),
        "many".to_string(),
    )]);
    let mut root = Node::new(NodeKind::Root);
    let mut h = Node::new(NodeKind::Heading { level: 2 });
    h.children.push(text_node("t"));
    root.children.push(h);
    assert!(driver.parse(root).is_ok());
    assert_eq!(
        driver.render(),
        "<h2 id=\"heading-0\">t</h2>\n<h2 class=\"table-of-contents\">Table of Contents</h2>\n<ul class=\"table-of-contents\">\n<li class=\"table-of-contents\"><a href=\"#heading-0\" class=\"toc-level-2\">t</a></li>\n</ul>\n"
    );
}

#[test]
fn test_text_helpers() {
    let mut out = String::new();
    escape_into("a&b<c>d\"e", &mut out);
    assert_eq!(out, "a&amp;b&lt;c&gt;d&quot;e");

    assert_eq!(repeat_char_string('#', 4), "####");
    assert_eq!(usize_to_dec(0), "0");
    assert_eq!(usize_to_dec(10), "10");
    assert_eq!(usize_to_dec(907), "907");
    assert_eq!(replace_nulls("a\u{0000}b"), "a\u{FFFD}b");
}

#[test]
fn test_heading_demotion_keeps_content() {
    // a demoted heading renders its marker text and its original children
    let mut root = Node::new(NodeKind::Root);
    let mut h = Node::new(NodeKind::Heading { level: 5 });
    h.children.push(text_node("deep"));
    root.children.push(h);
    let out = heading_level_modification::run(root, 3);
    assert_eq!(out.render(), "<p>##### deep</p>\n");
}
