use notification_template::names::{Bindings, NameSet};
use notification_template::render::{
    digest, escape_html, render, render_nodes, template_digest, unsafe_html_literal,
    validate_definition, RenderedMessage, TemplateDefinition, RENDERER_IDENTITY,
};
use notification_template::syntax::{parse, parse_until, Node, RenderFailure};

fn definition() -> TemplateDefinition {
    TemplateDefinition {
        subject: "Hello {{name}}".to_owned(),
        text: "{{#note}}{{note}}{{/note}}{{^note}}none{{/note}}".to_owned(),
        html: "<p>{{name}}</p>{{#url}}<a href=\"{{url}}\">Open</a>{{/url}}".to_owned(),
    }
}

fn source(subject: &str, text: &str, html: &str) -> TemplateDefinition {
    TemplateDefinition {
        subject: subject.to_owned(),
        text: text.to_owned(),
        html: html.to_owned(),
    }
}

fn pairs(list: &[(&str, &str)]) -> Vec<(String, String)> {
    list.iter()
        .map(|(name, value)| (name.to_string(), value.to_string()))
        .collect()
}

fn rendered(definition: &TemplateDefinition, list: &[(&str, &str)]) -> RenderedMessage {
    render(definition, pairs(list)).unwrap()
}

#[test]
fn sections_and_html_values_are_deterministic_and_escaped() {
    let rendered = render(
        &definition(),
        vec![
            ("name".to_owned(), "Ada <admin>".to_owned()),
            ("note".to_owned(), String::new()),
            ("url".to_owned(), String::new()),
        ],
    )
    .unwrap();
    assert_eq!(rendered.subject, "Hello Ada <admin>");
    assert_eq!(rendered.text, "none");
    assert!(rendered.html.contains("Ada &lt;admin&gt;"));
    assert!(!rendered.html.contains("<a"));
}

#[test]
fn variables_are_exact_and_url_suffixes_are_scheme_checked() {
    let url_definition = TemplateDefinition {
        subject: "Open".to_owned(),
        text: "{{invitation_url}}".to_owned(),
        html: "<a href=\"{{invitation_url}}\">Open</a>".to_owned(),
    };
    assert_eq!(
        render(
            &url_definition,
            vec![(
                "invitation_url".to_owned(),
                "javascript:alert(1)".to_owned()
            )]
        ),
        Err(RenderFailure::UnsafeVariable)
    );
    assert_eq!(
        render(
            &url_definition,
            vec![
                (
                    "invitation_url".to_owned(),
                    "https://example.test".to_owned()
                ),
                ("extra".to_owned(), "x".to_owned())
            ]
        ),
        Err(RenderFailure::UnexpectedVariable)
    );
}

#[test]
fn nested_or_unclosed_sections_fail_closed() {
    let invalid = TemplateDefinition {
        subject: "Hello".to_owned(),
        text: "{{#name}}missing close".to_owned(),
        html: "<p>{{name}}</p>".to_owned(),
    };
    assert_eq!(
        validate_definition(&invalid),
        Err(RenderFailure::InvalidTemplate)
    );
}

#[test]
fn a_message_is_rendered_whole() {
    let message = rendered(
        &definition(),
        &[("name", "Ada <admin>"), ("note", ""), ("url", "")],
    );
    assert_eq!(message.html, "<p>Ada &lt;admin&gt;</p>");
    assert_eq!(message.required_variables, vec!["name", "note", "url"]);
    assert_eq!(
        message.template_digest,
        "sha256:64738d52d4a630a00b0586ae2431da20811003ac01450d5cc9d7d3a7ee9c0eea"
    );
    assert_eq!(message.template_digest, template_digest(&definition()));
    assert_eq!(
        message.content_digest,
        "sha256:51d15cfb5e3a66d9773e24cdee98c2d0f531d239f24bc8f01fc9ba92b7ae1ce8"
    );
}

#[test]
fn set_sections_are_kept_and_inverted_ones_dropped() {
    let message = rendered(
        &definition(),
        &[("url", "https://a.test/?x=1&y='2'"), ("note", "n & m"), ("name", "Bo")],
    );
    assert_eq!(message.subject, "Hello Bo");
    assert_eq!(message.text, "n & m");
    assert_eq!(
        message.html,
        "<p>Bo</p><a href=\"https://a.test/?x=1&amp;y=&#39;2&#39;\">Open</a>"
    );
}

#[test]
fn a_blank_value_does_not_set_a_section() {
    let message = rendered(&definition(), &[("name", "Bo"), ("note", " \u{3000}\t"), ("url", "")]);
    assert_eq!(message.text, "none");
}

#[test]
fn the_order_of_variables_is_irrelevant() {
    let forward = rendered(&definition(), &[("name", "A"), ("note", "B"), ("url", "")]);
    let backward = rendered(&definition(), &[("url", ""), ("note", "B"), ("name", "A")]);
    assert_eq!(forward, backward);
}

#[test]
fn the_order_of_refused_variables_is_irrelevant() {
    let failures = |list: &[(&str, &str)]| {
        let mut backward = pairs(list);
        backward.reverse();
        let forward = render(&definition(), pairs(list)).unwrap_err();
        assert_eq!(forward, render(&definition(), backward).unwrap_err());
        forward
    };
    assert_eq!(
        failures(&[("name", "A"), ("name", "B"), ("note", ""), ("url", "")]),
        RenderFailure::UnsafeVariable
    );
    assert_eq!(
        failures(&[("extra", "x"), ("Name", "A")]),
        RenderFailure::UnsafeVariable
    );
    assert_eq!(
        failures(&[("extra", "x"), ("name", "A")]),
        RenderFailure::MissingVariable
    );
    assert_eq!(
        failures(&[("extra", "x"), ("name", "A"), ("note", ""), ("url", "")]),
        RenderFailure::UnexpectedVariable
    );
}

#[test]
fn every_unacceptable_variable_is_refused() {
    let refused = |list: &[(&str, &str)]| {
        assert_eq!(
            render(&definition(), pairs(list)),
            Err(RenderFailure::UnsafeVariable)
        );
    };
    refused(&[("Name", "x"), ("note", ""), ("url", "")]);
    refused(&[("", "x")]);
    refused(&[("name", "a\0b"), ("note", ""), ("url", "")]);
    refused(&[("name", "a\u{7}b"), ("note", ""), ("url", "")]);
    refused(&[("name", "a\u{85}b"), ("note", ""), ("url", "")]);
    refused(&[("name", "x"), ("name", "x"), ("note", ""), ("url", "")]);
    refused(&[("name", &"x".repeat(4_097)), ("note", ""), ("url", "")]);
    refused(&[("name", &"\u{e9}".repeat(2_049)), ("note", ""), ("url", "")]);
    refused(&[("some_url", "http://example.test")]);
    refused(&[("_url", "https://example.test")]);
    // A line break in the subject.
    refused(&[("name", "a\nb"), ("note", ""), ("url", "")]);
}

#[test]
fn line_breaks_and_tabs_are_accepted_where_no_subject_shows_them() {
    let message = rendered(&definition(), &[("name", "A"), ("note", "a\r\n\tb"), ("url", "")]);
    assert_eq!(message.text, "a\r\n\tb");
}

#[test]
fn urls_are_https_or_local() {
    let local = source("Open", "{{home_url}}", "<p>{{home_url}}</p>");
    assert_eq!(
        rendered(&local, &[("home_url", "http://localhost:8080/a")]).text,
        "http://localhost:8080/a"
    );
    assert_eq!(
        rendered(&local, &[("home_url", "https://example.test")]).text,
        "https://example.test"
    );
    assert_eq!(
        render(&local, pairs(&[("home_url", "HTTPS://example.test")])),
        Err(RenderFailure::UnsafeVariable)
    );
}

#[test]
fn local_urls_name_the_host_and_nothing_more() {
    let open = source(
        "Open",
        "{{invitation_url}}",
        "<a href=\"{{invitation_url}}\">Open</a>",
    );
    for local in [
        "http://localhost",
        "http://localhost/",
        "http://localhost/a",
        "http://localhost?x=1",
        "http://localhost#top",
        "http://localhost:",
        "http://localhost:/a",
        "http://localhost:?x=1",
        "http://localhost:8",
        "http://localhost:8080",
        "http://localhost:8080/a",
        "http://localhost:8080?x=1",
        "http://localhost:8080#top",
    ] {
        assert_eq!(rendered(&open, &[("invitation_url", local)]).text, local);
    }
    for other in [
        "http://localhost.attacker.example/x",
        "http://localhostx",
        "http://localhost@other.example",
        "http://localhost:x@other.example",
        "http://localhost:80@other.example",
        "http://localhost:80:80",
        "http://localhost ",
        "http://localhos",
        "HTTP://localhost",
        "",
    ] {
        assert_eq!(
            render(&open, pairs(&[("invitation_url", other)])),
            Err(RenderFailure::UnsafeVariable),
            "{other}"
        );
    }
}

#[test]
fn a_local_url_beside_an_unexpected_variable_is_not_at_fault() {
    let open = source("Open", "{{home_url}}", "<p>{{home_url}}</p>");
    assert_eq!(
        render(&open, pairs(&[("home_url", "http://localhost:/x"), ("extra", "y")])),
        Err(RenderFailure::UnexpectedVariable)
    );
}

#[test]
fn active_content_is_found_in_its_surroundings() {
    for html in ["<script", " onload=", "<svg/onload=x>"] {
        assert!(unsafe_html_literal(&format!("<p title=\"a\">b</p>{html}c")));
        assert!(unsafe_html_literal(&html.to_ascii_uppercase()));
    }
    assert!(unsafe_html_literal("<p title=\" onload=\">"));
    assert!(!unsafe_html_literal("<p title=\"<svg/onload=x>\">"));
}

#[test]
fn missing_variables_come_before_unexpected_ones() {
    assert_eq!(
        render(&definition(), pairs(&[("name", "x"), ("extra", "y")])),
        Err(RenderFailure::MissingVariable)
    );
    assert_eq!(
        render(&source("", "", ""), pairs(&[("name", "x")])),
        Err(RenderFailure::InvalidTemplate)
    );
}

#[test]
fn a_message_that_grows_too_large_is_refused() {
    let value = "x".repeat(4_096);
    let long_subject = source("{{name}}", "{{name}}", "<p>{{name}}</p>");
    assert_eq!(
        render(&long_subject, pairs(&[("name", &value)])),
        Err(RenderFailure::UnsafeVariable)
    );
    assert_eq!(
        render(&long_subject, pairs(&[("name", &"x".repeat(998))])).map(|m| m.subject.len()),
        Ok(998)
    );
    assert_eq!(
        render(&long_subject, pairs(&[("name", "  ")])),
        Err(RenderFailure::UnsafeVariable)
    );
    let body = "{{name}}".repeat(65);
    let long_text = source("Hello", &body, "<p>{{name}}</p>");
    assert_eq!(
        render(&long_text, pairs(&[("name", &value)])),
        Err(RenderFailure::UnsafeVariable)
    );
    let long_html = source("Hello", "{{name}}", &"{{name}}".repeat(129));
    assert_eq!(
        render(&long_html, pairs(&[("name", &value)])),
        Err(RenderFailure::UnsafeVariable)
    );
}

#[test]
fn sources_have_limits() {
    let ok = |d: &TemplateDefinition| validate_definition(d).is_ok();
    let name = "{{name}}";
    assert!(ok(&source(name, name, name)));
    assert!(!ok(&source(" ", name, name)));
    assert!(!ok(&source("a\nb", name, name)));
    assert!(!ok(&source("a\rb", name, name)));
    assert!(!ok(&source("a\0b", name, name)));
    assert!(!ok(&source(name, "", name)));
    assert!(!ok(&source(name, "a\0b", name)));
    assert!(!ok(&source(name, name, "\u{2003}")));
    assert!(!ok(&source(name, name, "a\0b")));
    assert!(ok(&source(&"s".repeat(998), name, name)));
    assert!(!ok(&source(&"s".repeat(999), name, name)));
    assert!(!ok(&source(&"\u{e9}".repeat(500), name, name)));
    assert!(ok(&source(name, &"t".repeat(131_072), name)));
    assert!(!ok(&source(name, &"t".repeat(131_073), name)));
    assert!(ok(&source(name, name, &"h".repeat(262_144))));
    assert!(!ok(&source(name, name, &"h".repeat(262_145))));
}

#[test]
fn a_definition_uses_between_one_and_sixty_four_names() {
    assert_eq!(
        validate_definition(&source("a", "b", "c")),
        Err(RenderFailure::InvalidTemplate)
    );
    let many = |count: usize| {
        (0..count)
            .map(|index| format!("{{{{v{index}}}}}"))
            .collect::<String>()
    };
    let names = validate_definition(&source("a", &many(64), "c")).unwrap();
    assert_eq!(names.len(), 64);
    let mut sorted = names.clone();
    sorted.sort();
    assert_eq!(names, sorted);
    assert!(validate_definition(&source("a", &many(65), "c")).is_err());
}

#[test]
fn active_content_is_found_in_any_case() {
    for literal in [
        "<script>",
        "</SCRIPT >",
        "JavaScript:alert(1)",
        "data:TEXT/html,x",
        "<iframe src=x>",
        "<OBJECT>",
        "<embed>",
        "<Form action=x>",
        "<p onload=x>",
        "<p ONCLICK=x>",
        "<img onerror=x>",
    ] {
        assert!(unsafe_html_literal(literal), "{literal}");
        let html = format!("{literal}{{{{name}}}}");
        assert_eq!(
            render(&source("s", "t", &html), pairs(&[("name", "x")])),
            Err(RenderFailure::InvalidTemplate)
        );
    }
    assert!(!unsafe_html_literal("<p>scripted onload</p>"));
    assert!(!unsafe_html_literal("\u{212a}<p>"));
}

#[test]
fn handlers_are_found_behind_whatever_separates_attributes() {
    for literal in [
        "<img src=x\tonerror=alert(1)>",
        "<img src=x\nonerror=alert(1)>",
        "<img src=x\ronerror=alert(1)>",
        "<img src=x\u{c}onerror=alert(1)>",
        "<svg/onload=x>",
        "<p title=\"a\"onclick=x>",
        "<p title='a'onclick=x>",
        "<p OnClick =x>",
        "<p onload\t\n=x>",
        "<p onload onload=x>",
        "<p title=''onload=x>",
        "<p title=a\tonload=x>",
        "<p title = 'a>b'\nonload = x>",
        "<p =\"\tonload=x>",
        "<{{name}}\tonload=x>",
        "<p title=\" onload=x\">",
        "set onload=x",
    ] {
        assert!(unsafe_html_literal(literal), "{literal}");
        let html = format!("{literal}{{{{name}}}}");
        assert_eq!(
            validate_definition(&source("s", "t", &html)),
            Err(RenderFailure::InvalidTemplate)
        );
    }
    for literal in [
        "onload=x",
        "<p xonload=x>",
        "<p data-onclick=x>",
        "<p onload>",
        "<p onload x=1>",
        "<p onloads=x>",
        "<p\u{a0}onload=x>",
        "<p onload\u{a0}=x>",
        "<p onload",
        "<a href=\"https://x.test/onload=1\">",
        "<a href='https://x.test/onload=1'>",
        "<a href=https://x.test/onload=1>",
        "<p title=\"onload=5\">",
        "<p title= \"\tonload=5\">",
        "<p title=\"'onload=5\">",
        "<p>\tonload = now</p>",
        "at 3 < 4\tonload = now",
    ] {
        assert!(!unsafe_html_literal(literal), "{literal}");
    }
}

#[test]
fn escaping_leaves_no_markup_and_loses_nothing() {
    assert_eq!(escape_html("<a href=\"x\">'&'</a>"), "&lt;a href=&quot;x&quot;&gt;&#39;&amp;&#39;&lt;/a&gt;");
    assert_eq!(escape_html("&lt;"), "&amp;lt;");
    assert_eq!(escape_html("\u{e9} plain"), "\u{e9} plain");
    assert_ne!(escape_html("<"), escape_html("&lt;"));
}

#[test]
fn values_add_no_markup_to_html() {
    let message = rendered(
        &source("s", "t", "<b>{{name}}</b>"),
        &[("name", "\"><img src='x'>")],
    );
    let markup: String = message
        .html
        .chars()
        .filter(|c| matches!(c, '<' | '>' | '"' | '\''))
        .collect();
    assert_eq!(markup, "<><>");
}

#[test]
fn html_holds_no_more_markup_than_its_source() {
    let html = "<p title=\"it's\">{{a}}</p>{{#b}}<a href='{{a}}'>\"{{b}}\"</a>{{/b}}";
    let count = |s: &str, c: char| s.chars().filter(|x| *x == c).count();
    for b in ["", "<\"'>"] {
        let message = rendered(&source("s", "t", html), &[("a", "'\"<b>\"'"), ("b", b)]);
        for c in ['<', '>', '"', '\''] {
            assert!(count(&message.html, c) <= count(html, c));
        }
        assert_eq!(count(&message.html, '<') == count(html, '<'), b != "");
    }
}

#[test]
fn digests_frame_their_parts() {
    assert_eq!(
        digest(&[]),
        "sha256:e3b0c44298fc1c149afbf4c8996fb92427ae41e4649b934ca495991b7852b855"
    );
    for parts in [&["a"][..], &["ab", "c"], &["\u{e9}", "", "x"]] {
        assert_eq!(digest(parts).len(), 71);
    }
    assert_eq!(template_digest(&definition()).len(), 71);
    assert_ne!(digest(&["ab", "c"]), digest(&["a", "bc"]));
    assert_ne!(digest(&["a"]), digest(&["a", ""]));
    assert_eq!(
        RENDERER_IDENTITY,
        "lenso.notification-template.renderer/safe-sections@1"
    );
}

fn tree(source: &str) -> Option<Vec<Node>> {
    parse(source, &mut NameSet::new()).ok()
}

fn text(value: &str) -> Node {
    Node::Text(value.to_owned())
}

fn variable(name: &str) -> Node {
    Node::Variable(name.to_owned())
}

#[test]
fn sources_are_read_as_trees() {
    assert_eq!(tree(""), Some(vec![]));
    assert_eq!(tree("plain }} text"), Some(vec![text("plain }} text")]));
    assert_eq!(
        tree("a {{ x }} b"),
        Some(vec![text("a "), variable("x"), text(" b")])
    );
    assert_eq!(
        tree("{{#a}}1{{^b}}{{c}}{{/b}}{{/a}}"),
        Some(vec![Node::Section {
            name: "a".to_owned(),
            inverted: false,
            children: vec![
                text("1"),
                Node::Section {
                    name: "b".to_owned(),
                    inverted: true,
                    children: vec![variable("c")],
                },
            ],
        }])
    );
}

/// The nodes in writing, with nothing but their names between the braces.
fn written(nodes: &[Node]) -> String {
    nodes
        .iter()
        .map(|node| match node {
            Node::Text(value) => value.clone(),
            Node::Variable(name) => format!("{{{{{name}}}}}"),
            Node::Section {
                name,
                inverted,
                children,
            } => {
                let mark = if *inverted { '^' } else { '#' };
                let inner = written(children);
                format!("{{{{{mark}{name}}}}}{inner}{{{{/{name}}}}}")
            }
        })
        .collect()
}

#[test]
fn a_tree_in_writing_is_read_back() {
    for tight in [
        "",
        "plain }} { text",
        "a{{x}}b{{y}}{{z}}",
        "{{#a}}1{{^b}}{{c}}{{/b}} {{/a}}{",
    ] {
        let nodes = tree(tight).unwrap();
        assert_eq!(written(&nodes), tight);
    }
    let loose = "a {{ x }}{{\t#b }}c{{ /b\n}}";
    let nodes = tree(loose).unwrap();
    assert_eq!(written(&nodes), "a {{x}}{{#b}}c{{/b}}");
    assert_eq!(tree(&written(&nodes)), Some(nodes));
}

#[test]
fn malformed_sources_denote_nothing() {
    for bad in [
        "{{x",
        "{{}}",
        "{{ X }}",
        "{{1a}}",
        "{{a-b}}",
        "{{/a}}",
        "{{#a}}",
        "{{#a}}{{/b}}",
        "{{#a}}{{#b}}{{/a}}{{/b}}",
        "{{# a}}{{/ a}}",
        "{{{x}}}",
        "{{#}}{{/}}",
    ] {
        assert_eq!(tree(bad), None, "{bad}");
    }
}

#[test]
fn sections_nest_sixteen_deep() {
    let nested = |depth: usize| format!("{}x{}", "{{#a}}".repeat(depth), "{{/a}}".repeat(depth));
    assert!(tree(&nested(16)).is_some());
    assert!(tree(&nested(17)).is_none());
}

#[test]
fn names_are_collected_in_order_and_once() {
    let mut names = NameSet::new();
    parse("{{b}}{{#a}}{{b}}{{c}}{{/a}}{{^d}}{{/d}}", &mut names).unwrap();
    assert_eq!(names.len(), 4);
    assert!(names.contains("d") && !names.contains("e"));
    assert_eq!(names.into_names(), vec!["a", "b", "c", "d"]);
}

#[test]
fn a_section_is_read_up_to_its_end() {
    let source: Vec<char> = "x{{/a}}rest".chars().collect();
    let mut offset = 0;
    let nodes = parse_until(&source, &mut offset, Some("a"), &mut NameSet::new(), 1).unwrap();
    assert_eq!(nodes, vec![text("x")]);
    assert_eq!(offset, 7);
}

#[test]
fn a_tree_is_rendered_with_values() {
    let nodes = tree("{{#a}}[{{a}}]{{/a}}{{^b}}-{{/b}}").unwrap();
    let mut values = Bindings::new();
    values.bind("a".to_owned(), "<1>".to_owned());
    values.bind("b".to_owned(), "".to_owned());
    assert_eq!(render_nodes(&nodes, &values, false), "[<1>]-");
    assert_eq!(render_nodes(&nodes, &values, true), "[&lt;1&gt;]-");
}
