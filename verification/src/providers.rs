//! The parts of the language-model and search clients that are computation:
//! endpoint URLs, the retry pause schedule, and cutting a JSON object out of
//! a chatty model reply.

use vstd::prelude::*;

use crate::text::{chars_of, owned, push_str_chars, string_from_chars};

verus! {

/// `s` without trailing `/` characters (std `str::trim_end_matches('/')`).
pub open spec fn trim_trailing_slashes(s: Seq<char>) -> Seq<char>
    decreases s.len(),
{
    if s.len() > 0 && s.last() == '/' {
        trim_trailing_slashes(s.drop_last())
    } else {
        s
    }
}

proof fn lemma_trim_trailing_slashes(s: Seq<char>, j: int)
    requires
        0 <= j <= s.len(),
        forall|k: int| j <= k < s.len() ==> #[trigger] s[k] == '/',
    ensures
        trim_trailing_slashes(s) == trim_trailing_slashes(s.take(j)),
    decreases s.len() - j,
{
    if j < s.len() {
        let t = s.drop_last();
        assert forall|k: int| j <= k < t.len() implies #[trigger] t[k] == '/' by {
            assert(t[k] == s[k]);
        }
        lemma_trim_trailing_slashes(t, j);
        assert(t.take(j) =~= s.take(j));
    } else {
        assert(s.take(j) =~= s);
    }
}

/// Appends `base` without its trailing slashes, then `path`.
fn push_endpoint(out: &mut Vec<char>, base: &str, path: &str)
    ensures
        final(out)@ == old(out)@ + trim_trailing_slashes(base@) + path@,
{
    let cs = chars_of(base);
    let mut end: usize = cs.len();
    while end > 0 && cs[end - 1] == '/'
        invariant
            0 <= end <= cs@.len(),
            forall|k: int| end <= k < cs@.len() ==> #[trigger] cs@[k] == '/',
        decreases end,
    {
        end = end - 1;
    }
    proof {
        lemma_trim_trailing_slashes(cs@, end as int);
        let t = cs@.take(end as int);
        if t.len() > 0 {
            assert(t.last() == cs@[end - 1]);
        }
    }
    let ghost start = out@;
    let mut i: usize = 0;
    while i < end
        invariant
            0 <= i <= end <= cs@.len(),
            out@ == start + cs@.take(i as int),
        decreases end - i,
    {
        out.push(cs[i]);
        i = i + 1;
        assert(out@ =~= start + cs@.take(i as int));
    }
    push_str_chars(out, path);
}

/// The chat completions endpoint of an OpenAI-compatible API.
pub fn openai_chat_url(base_url: &str) -> (res: String)
    ensures
        res@ == trim_trailing_slashes(base_url@) + "/chat/completions"@,
{
    let mut out: Vec<char> = Vec::new();
    push_endpoint(&mut out, base_url, "/chat/completions");
    string_from_chars(&out)
}

/// The messages endpoint of the Anthropic API.
pub fn claude_messages_url(base_url: &str) -> (res: String)
    ensures
        res@ == trim_trailing_slashes(base_url@) + "/v1/messages"@,
{
    let mut out: Vec<char> = Vec::new();
    push_endpoint(&mut out, base_url, "/v1/messages");
    string_from_chars(&out)
}

/// The chat endpoint of an Ollama server.
pub fn ollama_chat_url(base_url: &str) -> (res: String)
    ensures
        res@ == trim_trailing_slashes(base_url@) + "/api/chat"@,
{
    let mut out: Vec<char> = Vec::new();
    push_endpoint(&mut out, base_url, "/api/chat");
    string_from_chars(&out)
}

/// The content generation endpoint of the Gemini API for `model`.
pub fn gemini_generate_url(base_url: &str, model: &str, api_key: &str) -> (res: String)
    ensures
        res@ == trim_trailing_slashes(base_url@) + "/v1beta/models/"@ + model@
            + ":generateContent?key="@ + api_key@,
{
    let mut out: Vec<char> = Vec::new();
    push_endpoint(&mut out, base_url, "/v1beta/models/");
    push_str_chars(&mut out, model);
    push_str_chars(&mut out, ":generateContent?key=");
    push_str_chars(&mut out, api_key);
    string_from_chars(&out)
}

/// The configured base URL of a provider, or its public default.
pub fn base_url_or(base_url: Option<String>, default: &str) -> (res: String)
    ensures
        base_url matches Some(b) ==> res@ == b@,
        base_url is None ==> res@ == default@,
{
    match base_url {
        Some(b) => b,
        None => owned(default),
    }
}

/// How long to pause after failed attempt `attempt` (counting from 0) of a
/// request tried three times: 500 ms, then 1000 ms, then no further try.
pub fn retry_pause_ms(attempt: u32) -> (res: Option<u64>)
    ensures
        attempt < 2 ==> (res matches Some(p) && p == 500 * (attempt + 1)),
        attempt >= 2 ==> res is None,
{
    if attempt < 2 {
        Some(500 * (attempt as u64 + 1))
    } else {
        None
    }
}

/// Position of the first `c` in `s`.
pub open spec fn first_index(s: Seq<char>, c: char) -> Option<int>
    decreases s.len(),
{
    if s.len() == 0 {
        None
    } else if s[0] == c {
        Some(0)
    } else {
        match first_index(s.drop_first(), c) {
            Some(i) => Some(i + 1),
            None => None,
        }
    }
}

/// Position of the last `c` in `s`.
pub open spec fn last_index(s: Seq<char>, c: char) -> Option<int>
    decreases s.len(),
{
    if s.len() == 0 {
        None
    } else if s.last() == c {
        Some(s.len() - 1)
    } else {
        last_index(s.drop_last(), c)
    }
}

proof fn lemma_first_index(s: Seq<char>, c: char, i: int)
    requires
        0 <= i <= s.len(),
        forall|k: int| 0 <= k < i ==> #[trigger] s[k] != c,
    ensures
        i < s.len() && s[i] == c ==> first_index(s, c) == Some(i),
        i == s.len() ==> first_index(s, c) is None,
    decreases i,
{
    if i > 0 {
        let t = s.drop_first();
        assert forall|k: int| 0 <= k < i - 1 implies #[trigger] t[k] != c by {
            assert(t[k] == s[k + 1]);
        }
        lemma_first_index(t, c, i - 1);
        if i < s.len() {
            assert(t[i - 1] == s[i]);
        }
    }
}

proof fn lemma_last_index(s: Seq<char>, c: char, j: int)
    requires
        0 <= j <= s.len(),
        forall|k: int| j <= k < s.len() ==> #[trigger] s[k] != c,
    ensures
        last_index(s, c) == last_index(s.take(j), c),
    decreases s.len() - j,
{
    if j < s.len() {
        let t = s.drop_last();
        assert forall|k: int| j <= k < t.len() implies #[trigger] t[k] != c by {
            assert(t[k] == s[k]);
        }
        lemma_last_index(t, c, j);
        assert(t.take(j) =~= s.take(j));
    } else {
        assert(s.take(j) =~= s);
    }
}

/// The span from the first `{` to the last `}` of a reply, both included,
/// when it has both; the whole reply otherwise.
pub open spec fn json_object_span(s: Seq<char>) -> Seq<char> {
    match (first_index(s, '{'), last_index(s, '}')) {
        (Some(a), Some(b)) => s.subrange(a, b + 1),
        _ => s,
    }
}

/// The reply is one on which cutting out the span does not fail: the last
/// `}`, if any, does not stand more than one place before the first `{`.
pub open spec fn json_span_cuttable(s: Seq<char>) -> bool {
    match (first_index(s, '{'), last_index(s, '}')) {
        (Some(a), Some(b)) => a <= b + 1,
        _ => true,
    }
}

fn find_first(cs: &Vec<char>, c: char) -> (res: Option<usize>)
    ensures
        match res {
            Some(i) => first_index(cs@, c) == Some(i as int),
            None => first_index(cs@, c) is None,
        },
        res matches Some(i) ==> i < cs@.len(),
{
    let mut i: usize = 0;
    while i < cs.len()
        invariant
            0 <= i <= cs@.len(),
            forall|k: int| 0 <= k < i ==> #[trigger] cs@[k] != c,
        decreases cs@.len() - i,
    {
        if cs[i] == c {
            proof {
                lemma_first_index(cs@, c, i as int);
            }
            return Some(i);
        }
        i = i + 1;
    }
    proof {
        lemma_first_index(cs@, c, i as int);
    }
    None
}

fn find_last(cs: &Vec<char>, c: char) -> (res: Option<usize>)
    ensures
        match res {
            Some(i) => last_index(cs@, c) == Some(i as int),
            None => last_index(cs@, c) is None,
        },
        res matches Some(i) ==> i < cs@.len(),
{
    let mut j: usize = cs.len();
    while j > 0
        invariant
            0 <= j <= cs@.len(),
            forall|k: int| j <= k < cs@.len() ==> #[trigger] cs@[k] != c,
        decreases j,
    {
        if cs[j - 1] == c {
            proof {
                lemma_last_index(cs@, c, j as int);
                assert(cs@.take(j as int).last() == c);
            }
            return Some(j - 1);
        }
        j = j - 1;
    }
    proof {
        lemma_last_index(cs@, c, 0);
    }
    None
}

/// In JSON mode, the reply of a model that wraps its JSON in prose is cut
/// down to the span from its first `{` to its last `}`.
pub fn extract_json_object(content: &str) -> (res: String)
    requires
        json_span_cuttable(content@),
    ensures
        res@ == json_object_span(content@),
{
    let cs = chars_of(content);
    match (find_first(&cs, '{'), find_last(&cs, '}')) {
        (Some(a), Some(b)) => {
            let mut out: Vec<char> = Vec::new();
            let mut i: usize = a;
            assert(out@ =~= cs@.subrange(a as int, a as int));
            while i <= b
                invariant
                    a <= i <= b + 1,
                    b < cs.len(),
                    out@ == cs@.subrange(a as int, i as int),
                decreases b + 1 - i,
            {
                out.push(cs[i]);
                i = i + 1;
                assert(out@ =~= cs@.subrange(a as int, i as int));
            }
            string_from_chars(&out)
        },
        _ => owned(content),
    }
}

/// Whether `extract_json_object` may be called on `content`.
pub fn json_span_is_cuttable(content: &str) -> (res: bool)
    ensures
        res == json_span_cuttable(content@),
{
    let cs = chars_of(content);
    match (find_first(&cs, '{'), find_last(&cs, '}')) {
        (Some(a), Some(b)) => a <= b + 1,
        _ => true,
    }
}

} // verus!
