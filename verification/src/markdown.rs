//! Markdown rendering (pulldown-cmark, then the ammonia sanitizer) and HTML
//! escaping of plain text.

use vstd::prelude::*;

use crate::text::{chars_of, string_from_chars};

verus! {

/// Extensions enabled when rendering: tables (`1 << 1`), footnotes
/// (`1 << 2`), strikethrough (`1 << 3`) and task lists (`1 << 4`), in the
/// bit layout of `pulldown_cmark::Options`.
pub const MARKDOWN_OPTIONS: u32 = (1u32 << 1) | (1u32 << 2) | (1u32 << 3) | (1u32 << 4);

/// The HTML that `pulldown_cmark::html::push_html` writes for `markdown`
/// parsed with the option bits `options`.
pub uninterp spec fn spec_markdown_html(markdown: Seq<char>, options: u32) -> Seq<char>;

/// The HTML that `ammonia::clean` (ammonia's default sanitizer) keeps of `html`.
pub uninterp spec fn spec_ammonia_clean(html: Seq<char>) -> Seq<char>;

/// Renders `markdown` with `pulldown_cmark::Parser::new_ext` and
/// `pulldown_cmark::html::push_html`; the result is only tied to the name
/// `spec_markdown_html`.
#[verifier::external_body]
fn markdown_to_html(markdown: &str, options: u32) -> (res: String)
    ensures
        res@ == spec_markdown_html(markdown@, options),
{
    let parser = pulldown_cmark::Parser::new_ext(
        markdown,
        pulldown_cmark::Options::from_bits_truncate(options),
    );
    let mut out = String::new();
    pulldown_cmark::html::push_html(&mut out, parser);
    out
}

/// Sanitizes `html` with `ammonia::clean`; the result is only tied to the
/// name `spec_ammonia_clean`.
#[verifier::external_body]
fn sanitize_html(html: &str) -> (res: String)
    ensures
        res@ == spec_ammonia_clean(html@),
{
    ammonia::clean(html)
}

/// Renders Markdown to HTML and sanitizes the result.
pub fn render_markdown(markdown: &str) -> (res: String)
    ensures
        res@ == spec_ammonia_clean(spec_markdown_html(markdown@, MARKDOWN_OPTIONS)),
{
    let html = markdown_to_html(markdown, MARKDOWN_OPTIONS);
    sanitize_html(html.as_str())
}

/// What one character becomes inside HTML text or an attribute value.
pub open spec fn html_escape_char(c: char) -> Seq<char> {
    if c == '&' {
        seq!['&', 'a', 'm', 'p', ';']
    } else if c == '<' {
        seq!['&', 'l', 't', ';']
    } else if c == '>' {
        seq!['&', 'g', 't', ';']
    } else if c == '"' {
        seq!['&', 'q', 'u', 'o', 't', ';']
    } else if c == '\'' {
        seq!['&', '#', '3', '9', ';']
    } else {
        seq![c]
    }
}

/// Every character of `s` replaced by its escape, in order.
pub open spec fn spec_escape_html(s: Seq<char>) -> Seq<char>
    decreases s.len(),
{
    if s.len() == 0 {
        seq![]
    } else {
        spec_escape_html(s.drop_last()) + html_escape_char(s.last())
    }
}

/// Escapes `&`, `<`, `>`, `"` and `'` for safe insertion into HTML text or
/// attribute context; every other character is kept.
pub fn escape_html(raw: &str) -> (res: String)
    ensures
        res@ == spec_escape_html(raw@),
{
    let cs = chars_of(raw);
    let mut out: Vec<char> = Vec::new();
    let mut i: usize = 0;
    while i < cs.len()
        invariant
            0 <= i <= cs@.len(),
            cs@ == raw@,
            out@ == spec_escape_html(cs@.take(i as int)),
        decreases cs@.len() - i,
    {
        let c = cs[i];
        let ghost before = out@;
        if c == '&' {
            out.push('&');
            out.push('a');
            out.push('m');
            out.push('p');
            out.push(';');
        } else if c == '<' {
            out.push('&');
            out.push('l');
            out.push('t');
            out.push(';');
        } else if c == '>' {
            out.push('&');
            out.push('g');
            out.push('t');
            out.push(';');
        } else if c == '"' {
            out.push('&');
            out.push('q');
            out.push('u');
            out.push('o');
            out.push('t');
            out.push(';');
        } else if c == '\'' {
            out.push('&');
            out.push('#');
            out.push('3');
            out.push('9');
            out.push(';');
        } else {
            out.push(c);
        }
        assert(out@ =~= before + html_escape_char(c));
        assert(cs@.take(i + 1).drop_last() =~= cs@.take(i as int));
        i = i + 1;
    }
    assert(cs@.take(cs@.len() as int) =~= cs@);
    string_from_chars(&out)
}

/// A character with a meaning in HTML markup.
pub open spec fn html_special(c: char) -> bool {
    c == '&' || c == '<' || c == '>' || c == '"' || c == '\''
}

/// Escaping distributes over concatenation: pieces can be escaped apart.
pub proof fn law_escape_concat(a: Seq<char>, b: Seq<char>)
    ensures
        spec_escape_html(a + b) == spec_escape_html(a) + spec_escape_html(b),
    decreases b.len(),
{
    if b.len() == 0 {
        assert(a + b =~= a);
        assert(spec_escape_html(b) =~= Seq::<char>::empty());
        assert(spec_escape_html(a) + spec_escape_html(b) =~= spec_escape_html(a));
    } else {
        law_escape_concat(a, b.drop_last());
        assert((a + b).drop_last() =~= a + b.drop_last());
        assert((a + b).last() == b.last());
        assert(spec_escape_html(a) + spec_escape_html(b.drop_last()) + html_escape_char(b.last())
            =~= spec_escape_html(a) + (spec_escape_html(b.drop_last()) + html_escape_char(b.last())));
    }
}

/// Text without special characters passes through unchanged.
pub proof fn law_escape_keeps_plain_text(s: Seq<char>)
    requires
        forall|i: int| 0 <= i < s.len() ==> !html_special(#[trigger] s[i]),
    ensures
        spec_escape_html(s) == s,
    decreases s.len(),
{
    if s.len() > 0 {
        let p = s.drop_last();
        assert forall|i: int| 0 <= i < p.len() implies !html_special(#[trigger] p[i]) by {
            assert(p[i] == s[i]);
        }
        law_escape_keeps_plain_text(p);
        assert(!html_special(s[s.len() - 1]));
        assert(p.push(s.last()) =~= s);
    }
}

/// Escaped text holds no `<`, `>`, `"` or `'`, so it cannot open a tag or
/// leave an attribute value.
pub proof fn law_escape_output_has_no_markup(s: Seq<char>)
    ensures
        forall|i: int|
            0 <= i < spec_escape_html(s).len() ==> {
                let c = #[trigger] spec_escape_html(s)[i];
                c != '<' && c != '>' && c != '"' && c != '\''
            },
    decreases s.len(),
{
    if s.len() > 0 {
        let p = s.drop_last();
        law_escape_output_has_no_markup(p);
        let e = spec_escape_html(p);
        let t = html_escape_char(s.last());
        assert forall|i: int| 0 <= i < spec_escape_html(s).len() implies {
            let c = #[trigger] spec_escape_html(s)[i];
            c != '<' && c != '>' && c != '"' && c != '\''
        } by {
            if i < e.len() {
                assert(spec_escape_html(s)[i] == e[i]);
            } else {
                assert(spec_escape_html(s)[i] == t[i - e.len()]);
            }
        }
    }
}

/// Reading escaped text back, in one left-to-right pass: each of `&lt;`,
/// `&gt;`, `&quot;`, `&#39;` and `&amp;` becomes the character it stands for;
/// every other character is kept.
pub open spec fn unescape_html(s: Seq<char>) -> Seq<char>
    decreases s.len(),
{
    if s.len() == 0 {
        seq![]
    } else if s.len() >= 4 && s.take(4) == seq!['&', 'l', 't', ';'] {
        seq!['<'] + unescape_html(s.skip(4))
    } else if s.len() >= 4 && s.take(4) == seq!['&', 'g', 't', ';'] {
        seq!['>'] + unescape_html(s.skip(4))
    } else if s.len() >= 6 && s.take(6) == seq!['&', 'q', 'u', 'o', 't', ';'] {
        seq!['"'] + unescape_html(s.skip(6))
    } else if s.len() >= 5 && s.take(5) == seq!['&', '#', '3', '9', ';'] {
        seq!['\''] + unescape_html(s.skip(5))
    } else if s.len() >= 5 && s.take(5) == seq!['&', 'a', 'm', 'p', ';'] {
        seq!['&'] + unescape_html(s.skip(5))
    } else {
        seq![s[0]] + unescape_html(s.skip(1))
    }
}

proof fn lemma_unescape_escaped_char(c: char, t: Seq<char>)
    ensures
        unescape_html(html_escape_char(c) + t) == seq![c] + unescape_html(t),
{
    let x = html_escape_char(c) + t;
    let e = html_escape_char(c);
    if c == '&' {
        assert(x.take(4)[1] == 'a');
        assert(x.take(4) != seq!['&', 'l', 't', ';']);
        assert(x.take(4) != seq!['&', 'g', 't', ';']);
        if x.len() >= 6 {
            assert(x.take(6)[1] == 'a');
        }
        assert(x.take(5)[1] == 'a');
        assert(x.take(5) != seq!['&', '#', '3', '9', ';']);
        assert(x.take(5) =~= e);
        assert(x.skip(5) =~= t);
    } else if c == '<' {
        assert(x.take(4) =~= e);
        assert(x.skip(4) =~= t);
    } else if c == '>' {
        assert(x.take(4)[1] == 'g');
        assert(x.take(4) != seq!['&', 'l', 't', ';']);
        assert(x.take(4) =~= e);
        assert(x.skip(4) =~= t);
    } else if c == '"' {
        assert(x.take(4)[1] == 'q');
        assert(x.take(4) != seq!['&', 'l', 't', ';']);
        assert(x.take(4) != seq!['&', 'g', 't', ';']);
        assert(x.take(6) =~= e);
        assert(x.skip(6) =~= t);
    } else if c == '\'' {
        assert(x.take(4)[1] == '#');
        assert(x.take(4) != seq!['&', 'l', 't', ';']);
        assert(x.take(4) != seq!['&', 'g', 't', ';']);
        if x.len() >= 6 {
            assert(x.take(6)[1] == '#');
        }
        assert(x.take(5) =~= e);
        assert(x.skip(5) =~= t);
    } else {
        assert(x[0] == c);
        if x.len() >= 4 {
            assert(x.take(4)[0] == c);
        }
        if x.len() >= 5 {
            assert(x.take(5)[0] == c);
        }
        if x.len() >= 6 {
            assert(x.take(6)[0] == c);
        }
        assert(x.skip(1) =~= t);
    }
}

/// Escaping loses no information: reading the escaped text back gives the
/// input.
pub proof fn law_unescape_inverts_escape(s: Seq<char>)
    ensures
        unescape_html(spec_escape_html(s)) == s,
    decreases s.len(),
{
    if s.len() > 0 {
        let rest = s.drop_first();
        let first = seq![s[0]];
        assert(first + rest =~= s);
        assert(spec_escape_html(s) == html_escape_char(s[0]) + spec_escape_html(rest)) by {
            law_escape_concat(first, rest);
            assert(first.drop_last() =~= Seq::<char>::empty());
            assert(first.last() == s[0]);
            assert(spec_escape_html(first.drop_last()) =~= Seq::<char>::empty());
            assert(spec_escape_html(first) == spec_escape_html(first.drop_last()) + html_escape_char(
                s[0],
            ));
            assert(Seq::<char>::empty() + html_escape_char(s[0]) =~= html_escape_char(s[0]));
        }
        lemma_unescape_escaped_char(s[0], spec_escape_html(rest));
        law_unescape_inverts_escape(rest);
    }
}

} // verus!
