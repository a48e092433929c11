use autothesis::markdown::{escape_html, render_markdown};

#[test]
fn escape_html_replaces_specials() {
    assert_eq!(
        escape_html("<a href=\"x\">O'Reilly & Sons</a>"),
        "&lt;a href=&quot;x&quot;&gt;O&#39;Reilly &amp; Sons&lt;/a&gt;"
    );
}

#[test]
fn escape_html_passes_through_plain_text() {
    let s = "Hello, world!";
    assert_eq!(escape_html(s), s);
}

#[test]
fn render_markdown_sanitizes_script_tags() {
    let raw = "Hello <script>alert('x')</script> world";
    let out = render_markdown(raw);
    assert!(!out.contains("<script"), "rendered output: {out}");
}

#[test]
fn render_markdown_renders_emphasis_and_tables() {
    let out = render_markdown("*hi* ~~old~~");
    assert!(out.contains("<em>hi</em>"), "rendered output: {out}");
    assert!(out.contains("<del>old</del>"), "rendered output: {out}");
    let table = render_markdown("| a | b |\n|---|---|\n| 1 | 2 |\n");
    assert!(table.contains("<table>"), "rendered output: {table}");
}

#[test]
fn escape_html_of_empty_and_unicode() {
    assert_eq!(escape_html(""), "");
    assert_eq!(escape_html("é<ü>"), "é&lt;ü&gt;");
}

fn unescape(s: &str) -> String {
    let mut out = String::new();
    let mut rest = s;
    while !rest.is_empty() {
        let mut matched = false;
        for (entity, c) in [("&lt;", '<'), ("&gt;", '>'), ("&quot;", '"'), ("&#39;", '\''), ("&amp;", '&')] {
            if rest.starts_with(entity) {
                out.push(c);
                rest = &rest[entity.len()..];
                matched = true;
                break;
            }
        }
        if !matched {
            let c = rest.chars().next().unwrap();
            out.push(c);
            rest = &rest[c.len_utf8()..];
        }
    }
    out
}

#[test]
fn escaping_loses_no_information() {
    for s in ["", "plain", "&lt; already escaped &amp;", "<a href='x'>\"q\" & é</a>", "&&&;;"] {
        assert_eq!(unescape(&escape_html(s)), s);
    }
}
