//! Character-level text helpers: Unicode white space, trimming, collapsing
//! runs of white space, truncation, HTML escaping and decimal rendering.

use vstd::prelude::*;

verus! {

// ---------------------------------------------------------------------------
// Conversions between strings and character vectors.
// ---------------------------------------------------------------------------

/// Collects the characters of `s`, in order.
pub(crate) fn chars_of(s: &str) -> (res: Vec<char>)
    ensures
        res@ == s@,
{
    broadcast use vstd::string::axiom_spec_iter;

    let mut out: Vec<char> = Vec::new();
    for c in it: s.chars()
        invariant
            it.seq() == s@,
            out@ == it.seq().take(it.index() as int),
    {
        assert(it.seq().take(it.index() + 1) =~= it.seq().take(it.index() as int).push(c));
        out.push(c);
    }
    assert(s@.take(s@.len() as int) =~= s@);
    out
}

/// Builds a `String` from characters (std `FromIterator<char> for String`).
#[verifier::external_body]
pub(crate) fn string_from_chars(chars: &Vec<char>) -> (res: String)
    ensures
        res@ == chars@,
{
    chars.iter().collect()
}

/// Copies a string slice into an owned `String`.
pub(crate) fn owned(s: &str) -> (res: String)
    ensures
        res@ == s@,
{
    s.to_owned()
}

/// The characters of an optional string.
pub open spec fn opt_view(o: Option<String>) -> Option<Seq<char>> {
    match o {
        Some(s) => Some(s@),
        None => None,
    }
}

/// Appends the characters of `s` to `out`.
pub(crate) fn push_str_chars(out: &mut Vec<char>, s: &str)
    ensures
        final(out)@ == old(out)@ + s@,
{
    let cs = chars_of(s);
    let mut i: usize = 0;
    while i < cs.len()
        invariant
            0 <= i <= cs@.len(),
            cs@ == s@,
            out@ == old(out)@ + cs@.take(i as int),
        decreases cs@.len() - i,
    {
        out.push(cs[i]);
        i = i + 1;
        assert(cs@.take(i as int) == cs@.take(i - 1).push(cs@[i - 1]));
    }
    assert(cs@.take(cs@.len() as int) == cs@);
}

/// Compares two strings by their characters.
pub(crate) fn str_eq(a: &str, b: &str) -> (res: bool)
    ensures
        res == (a@ == b@),
{
    let x = chars_of(a);
    let y = chars_of(b);
    if x.len() != y.len() {
        return false;
    }
    let mut i: usize = 0;
    while i < x.len()
        invariant
            0 <= i <= x@.len(),
            x@.len() == y@.len(),
            x@ == a@,
            y@ == b@,
            forall|k: int| 0 <= k < i ==> x@[k] == y@[k],
        decreases x@.len() - i,
    {
        if x[i] != y[i] {
            return false;
        }
        i = i + 1;
    }
    assert(x@ =~= y@);
    true
}

// ---------------------------------------------------------------------------
// White space.
// ---------------------------------------------------------------------------

/// Unicode `White_Space` (the set that std's `char::is_whitespace`,
/// `str::trim` and `str::split_whitespace` use).
pub open spec fn is_white_space(c: char) -> bool {
    let u = c as u32;
    ||| 0x09 <= u <= 0x0d
    ||| u == 0x20
    ||| u == 0x85
    ||| u == 0xa0
    ||| u == 0x1680
    ||| 0x2000 <= u <= 0x200a
    ||| u == 0x2028
    ||| u == 0x2029
    ||| u == 0x202f
    ||| u == 0x205f
    ||| u == 0x3000
}

pub fn is_whitespace_char(c: char) -> (res: bool)
    ensures
        res == is_white_space(c),
{
    let u = c as u32;
    (0x09 <= u && u <= 0x0d) || u == 0x20 || u == 0x85 || u == 0xa0 || u == 0x1680 || (0x2000
        <= u && u <= 0x200a) || u == 0x2028 || u == 0x2029 || u == 0x202f || u == 0x205f || u
        == 0x3000
}

/// `s` without its leading white space.
pub open spec fn trim_start(s: Seq<char>) -> Seq<char>
    decreases s.len(),
{
    if s.len() > 0 && is_white_space(s[0]) {
        trim_start(s.drop_first())
    } else {
        s
    }
}

/// `s` without its trailing white space.
pub open spec fn trim_end(s: Seq<char>) -> Seq<char>
    decreases s.len(),
{
    if s.len() > 0 && is_white_space(s.last()) {
        trim_end(s.drop_last())
    } else {
        s
    }
}

/// `s` without leading and trailing white space (std `str::trim`).
pub open spec fn trim(s: Seq<char>) -> Seq<char> {
    trim_end(trim_start(s))
}

proof fn lemma_trim_start_skip(s: Seq<char>, i: int)
    requires
        0 <= i <= s.len(),
        forall|k: int| 0 <= k < i ==> is_white_space(#[trigger] s[k]),
    ensures
        trim_start(s) == trim_start(s.subrange(i, s.len() as int)),
    decreases i,
{
    if i > 0 {
        let t = s.drop_first();
        assert forall|k: int| 0 <= k < i - 1 implies is_white_space(#[trigger] t[k]) by {
            assert(t[k] == s[k + 1]);
        }
        lemma_trim_start_skip(t, i - 1);
        assert(t.subrange(i - 1, t.len() as int) =~= s.subrange(i, s.len() as int));
    } else {
        assert(s.subrange(0, s.len() as int) =~= s);
    }
}

proof fn lemma_trim_end_skip(s: Seq<char>, j: int)
    requires
        0 <= j <= s.len(),
        forall|k: int| j <= k < s.len() ==> is_white_space(#[trigger] s[k]),
    ensures
        trim_end(s) == trim_end(s.subrange(0, j)),
    decreases s.len() - j,
{
    if j < s.len() {
        let t = s.drop_last();
        assert forall|k: int| j <= k < t.len() implies is_white_space(#[trigger] t[k]) by {
            assert(t[k] == s[k]);
        }
        lemma_trim_end_skip(t, j);
        assert(t.subrange(0, j) =~= s.subrange(0, j));
    } else {
        assert(s.subrange(0, j) =~= s);
    }
}

/// Index bounds `(a, b)` such that `trim(s) == s[a..b]`.
fn trim_bounds(cs: &Vec<char>) -> (res: (usize, usize))
    ensures
        res.0 <= res.1 <= cs@.len(),
        trim(cs@) == cs@.subrange(res.0 as int, res.1 as int),
{
    let mut a: usize = 0;
    while a < cs.len() && is_whitespace_char(cs[a])
        invariant
            0 <= a <= cs@.len(),
            forall|k: int| 0 <= k < a ==> is_white_space(#[trigger] cs@[k]),
        decreases cs@.len() - a,
    {
        a = a + 1;
    }
    proof {
        lemma_trim_start_skip(cs@, a as int);
    }
    let ghost rest = cs@.subrange(a as int, cs@.len() as int);
    assert(trim_start(rest) == rest);
    let mut b: usize = cs.len();
    while b > a && is_whitespace_char(cs[b - 1])
        invariant
            a <= b <= cs@.len(),
            forall|k: int| b <= k < cs@.len() ==> is_white_space(#[trigger] cs@[k]),
        decreases b,
    {
        b = b - 1;
    }
    proof {
        assert forall|k: int| b - a <= k < rest.len() implies is_white_space(#[trigger] rest[k]) by {
            assert(rest[k] == cs@[k + a]);
        }
        lemma_trim_end_skip(rest, b - a);
        let core = rest.subrange(0, b - a);
        assert(core =~= cs@.subrange(a as int, b as int));
        if core.len() > 0 {
            assert(core.last() == cs@[b - 1]);
        }
    }
    (a, b)
}

/// Characters of `s` with leading and trailing white space removed.
pub fn trim_chars(s: &str) -> (res: Vec<char>)
    ensures
        res@ == trim(s@),
{
    let cs = chars_of(s);
    let (a, b) = trim_bounds(&cs);
    let mut out: Vec<char> = Vec::new();
    let mut i: usize = a;
    while i < b
        invariant
            a <= i <= b <= cs@.len(),
            out@ == cs@.subrange(a as int, i as int),
        decreases b - i,
    {
        out.push(cs[i]);
        i = i + 1;
        assert(out@ =~= cs@.subrange(a as int, i as int));
    }
    out
}

/// `s` with leading and trailing white space removed (std `str::trim`).
pub fn trim_string(s: &str) -> (res: String)
    ensures
        res@ == trim(s@),
{
    let cs = trim_chars(s);
    string_from_chars(&cs)
}

// ---------------------------------------------------------------------------
// Collapsing white space.
// ---------------------------------------------------------------------------

/// The maximal runs of non-white-space characters of `s`, in order
/// (std `str::split_whitespace`).
pub open spec fn words(s: Seq<char>) -> Seq<Seq<char>>
    decreases s.len(),
{
    if s.len() == 0 {
        seq![]
    } else {
        let prefix = s.drop_last();
        let c = s.last();
        if is_white_space(c) {
            words(prefix)
        } else if prefix.len() > 0 && !is_white_space(prefix.last()) {
            let ws = words(prefix);
            ws.update(ws.len() - 1, ws.last().push(c))
        } else {
            words(prefix).push(seq![c])
        }
    }
}

/// The words joined by single spaces.
pub open spec fn join_with_spaces(ws: Seq<Seq<char>>) -> Seq<char>
    decreases ws.len(),
{
    if ws.len() == 0 {
        seq![]
    } else if ws.len() == 1 {
        ws[0]
    } else {
        join_with_spaces(ws.drop_last()) + seq![' '] + ws.last()
    }
}

/// The character sequences of a list of strings.
pub open spec fn string_views(v: Seq<String>) -> Seq<Seq<char>> {
    v.map_values(|s: String| s@)
}

/// The strings of `parts` joined by single spaces (std's `join(" ")`).
pub fn join_strings(parts: &Vec<String>) -> (res: String)
    ensures
        res@ == join_with_spaces(string_views(parts@)),
{
    let ghost views = string_views(parts@);
    let mut out: Vec<char> = Vec::new();
    let mut i: usize = 0;
    assert(views.take(0) =~= Seq::<Seq<char>>::empty());
    while i < parts.len()
        invariant
            0 <= i <= parts@.len(),
            views == string_views(parts@),
            out@ == join_with_spaces(views.take(i as int)),
        decreases parts@.len() - i,
    {
        assert(views.take(i + 1) =~= views.take(i as int).push(views[i as int]));
        if i > 0 {
            proof {
                lemma_join_push(views.take(i as int), views[i as int]);
            }
            out.push(' ');
        } else {
            assert(views.take(1).len() == 1);
            assert(out@ =~= Seq::<char>::empty());
        }
        push_str_chars(&mut out, parts[i].as_str());
        i = i + 1;
    }
    assert(views.take(parts@.len() as int) =~= views);
    string_from_chars(&out)
}

/// Every run of white space replaced by one space, with none at either end.
pub open spec fn collapse(s: Seq<char>) -> Seq<char> {
    join_with_spaces(words(s))
}

proof fn lemma_words_nonempty_after_word_char(s: Seq<char>)
    requires
        s.len() > 0,
        !is_white_space(s.last()),
    ensures
        words(s).len() > 0,
    decreases s.len(),
{
    let prefix = s.drop_last();
    if prefix.len() > 0 && !is_white_space(prefix.last()) {
        lemma_words_nonempty_after_word_char(prefix);
    }
}

proof fn lemma_join_push(ws: Seq<Seq<char>>, w: Seq<char>)
    requires
        ws.len() > 0,
    ensures
        join_with_spaces(ws.push(w)) == join_with_spaces(ws) + seq![' '] + w,
{
    assert(ws.push(w).drop_last() =~= ws);
}

proof fn lemma_join_extend_last(ws: Seq<Seq<char>>, c: char)
    requires
        ws.len() > 0,
    ensures
        join_with_spaces(ws.update(ws.len() - 1, ws.last().push(c))) == join_with_spaces(ws).push(
            c,
        ),
{
    let ws2 = ws.update(ws.len() - 1, ws.last().push(c));
    if ws.len() == 1 {
        assert(ws2[0] == ws[0].push(c));
    } else {
        assert(ws2.drop_last() =~= ws.drop_last());
        assert(ws2.last() == ws.last().push(c));
        assert((join_with_spaces(ws.drop_last()) + seq![' '] + ws.last()).push(c) =~= join_with_spaces(
            ws.drop_last(),
        ) + seq![' '] + ws.last().push(c));
    }
}

proof fn lemma_join_empty_iff(ws: Seq<Seq<char>>)
    requires
        forall|k: int| 0 <= k < ws.len() ==> #[trigger] ws[k].len() > 0,
    ensures
        join_with_spaces(ws).len() == 0 <==> ws.len() == 0,
    decreases ws.len(),
{
    if ws.len() > 1 {
        lemma_join_empty_iff(ws.drop_last());
    }
}

proof fn lemma_words_nonempty(s: Seq<char>)
    ensures
        forall|k: int| 0 <= k < words(s).len() ==> #[trigger] words(s)[k].len() > 0,
    decreases s.len(),
{
    if s.len() > 0 {
        let prefix = s.drop_last();
        lemma_words_nonempty(prefix);
        let c = s.last();
        if !is_white_space(c) {
            if prefix.len() > 0 && !is_white_space(prefix.last()) {
                lemma_words_nonempty_after_word_char(prefix);
                let ws = words(prefix);
                assert forall|k: int| 0 <= k < words(s).len() implies #[trigger] words(s)[k].len()
                    > 0 by {
                    if k < ws.len() - 1 {
                        assert(words(s)[k] == ws[k]);
                    }
                }
            } else {
                let ws = words(prefix);
                assert forall|k: int| 0 <= k < words(s).len() implies #[trigger] words(s)[k].len()
                    > 0 by {
                    if k < ws.len() {
                        assert(words(s)[k] == ws[k]);
                    }
                }
            }
        }
    }
}

/// Collapses every run of white space in `value` into one space and drops
/// white space at both ends.
pub fn collapse_whitespace(value: &str) -> (res: String)
    ensures
        res@ == collapse(value@),
{
    let cs = chars_of(value);
    let mut out: Vec<char> = Vec::new();
    let mut i: usize = 0;
    while i < cs.len()
        invariant
            0 <= i <= cs@.len(),
            cs@ == value@,
            out@ == collapse(cs@.take(i as int)),
        decreases cs@.len() - i,
    {
        let c = cs[i];
        let ghost prefix = cs@.take(i as int);
        let ghost next = cs@.take(i + 1);
        assert(next.drop_last() =~= prefix);
        assert(next.last() == c);
        proof {
            lemma_words_nonempty(prefix);
            lemma_join_empty_iff(words(prefix));
        }
        if !is_whitespace_char(c) {
            if i > 0 && !is_whitespace_char(cs[i - 1]) {
                assert(prefix.last() == cs@[i - 1]);
                proof {
                    lemma_words_nonempty_after_word_char(prefix);
                    lemma_join_extend_last(words(prefix), c);
                }
                out.push(c);
            } else {
                if i > 0 {
                    assert(prefix.last() == cs@[i - 1]);
                }
                if out.len() > 0 {
                    proof {
                        lemma_join_push(words(prefix), seq![c]);
                    }
                    out.push(' ');
                    out.push(c);
                } else {
                    assert(words(prefix).len() == 0);
                    assert(words(next) =~= seq![seq![c]]);
                    out.push(c);
                    assert(out@ =~= seq![c]);
                }
            }
        }
        i = i + 1;
        assert(out@ =~= collapse(cs@.take(i as int)));
    }
    assert(cs@.take(cs@.len() as int) =~= cs@);
    string_from_chars(&out)
}

/// Every word of `s` is a non-empty run of non-white-space characters.
pub proof fn lemma_words_are_words(s: Seq<char>)
    ensures
        forall|k: int|
            0 <= k < words(s).len() ==> #[trigger] words(s)[k].len() > 0 && forall|j: int|
                0 <= j < words(s)[k].len() ==> !is_white_space(words(s)[k][j]),
    decreases s.len(),
{
    lemma_words_nonempty(s);
    if s.len() > 0 {
        let prefix = s.drop_last();
        lemma_words_are_words(prefix);
        let c = s.last();
        let ws = words(prefix);
        if !is_white_space(c) {
            if prefix.len() > 0 && !is_white_space(prefix.last()) {
                lemma_words_nonempty_after_word_char(prefix);
                assert forall|k: int| 0 <= k < words(s).len() implies #[trigger] words(s)[k].len() > 0
                    && forall|j: int| 0 <= j < words(s)[k].len() ==> !is_white_space(words(s)[k][j]) by {
                    if k < ws.len() - 1 {
                        assert(words(s)[k] == ws[k]);
                    } else {
                        assert(words(s)[k] == ws.last().push(c));
                        assert forall|j: int| 0 <= j < words(s)[k].len() implies !is_white_space(
                            words(s)[k][j],
                        ) by {
                            if j < ws.last().len() {
                                assert(words(s)[k][j] == ws[ws.len() - 1][j]);
                            }
                        }
                    }
                }
            } else {
                assert forall|k: int| 0 <= k < words(s).len() implies #[trigger] words(s)[k].len() > 0
                    && forall|j: int| 0 <= j < words(s)[k].len() ==> !is_white_space(words(s)[k][j]) by {
                    if k < ws.len() {
                        assert(words(s)[k] == ws[k]);
                    } else {
                        assert(words(s)[k] == seq![c]);
                    }
                }
            }
        }
    }
}

/// Appending a word after white space (or at the start) adds it as one more word.
proof fn lemma_words_append_word(x: Seq<char>, w: Seq<char>)
    requires
        w.len() > 0,
        forall|j: int| 0 <= j < w.len() ==> !is_white_space(#[trigger] w[j]),
        x.len() == 0 || is_white_space(x.last()),
    ensures
        words(x + w) == words(x).push(w),
    decreases w.len(),
{
    let c = w.last();
    let w0 = w.drop_last();
    assert((x + w).drop_last() =~= x + w0);
    assert((x + w).last() == c);
    assert(!is_white_space(w[w.len() - 1]));
    if w0.len() == 0 {
        assert(x + w0 =~= x);
        assert(seq![c] =~= w);
    } else {
        assert forall|j: int| 0 <= j < w0.len() implies !is_white_space(#[trigger] w0[j]) by {
            assert(w0[j] == w[j]);
        }
        lemma_words_append_word(x, w0);
        assert((x + w0).last() == w0.last());
        assert(!is_white_space(w[w0.len() - 1]));
        let ws = words(x + w0);
        assert(ws.update(ws.len() - 1, ws.last().push(c)) =~= words(x).push(w0.push(c)));
        assert(w0.push(c) =~= w);
    }
}

/// Splitting the joined words gives the words back.
proof fn lemma_words_of_join(ws: Seq<Seq<char>>)
    requires
        forall|k: int|
            0 <= k < ws.len() ==> #[trigger] ws[k].len() > 0 && forall|j: int|
                0 <= j < ws[k].len() ==> !is_white_space(ws[k][j]),
    ensures
        words(join_with_spaces(ws)) == ws,
    decreases ws.len(),
{
    if ws.len() == 0 {
        assert(words(join_with_spaces(ws)) =~= ws);
    } else {
        let w = ws.last();
        assert(w == ws[ws.len() - 1]);
        assert forall|j: int| 0 <= j < w.len() implies !is_white_space(#[trigger] w[j]) by {
            assert(w[j] == ws[ws.len() - 1][j]);
        }
        if ws.len() == 1 {
            lemma_words_append_word(seq![], w);
            assert(seq![] + w =~= w);
            assert(words(Seq::<char>::empty()) =~= Seq::<Seq<char>>::empty());
            assert(Seq::<Seq<char>>::empty().push(w) =~= ws);
        } else {
            let p = ws.drop_last();
            assert forall|k: int| 0 <= k < p.len() implies #[trigger] p[k].len() > 0 && forall|j: int|
                0 <= j < p[k].len() ==> !is_white_space(p[k][j]) by {
                assert(p[k] == ws[k]);
            }
            lemma_words_of_join(p);
            let x = join_with_spaces(p) + seq![' '];
            assert(is_white_space(x.last()));
            lemma_words_append_word(x, w);
            assert(x.drop_last() =~= join_with_spaces(p));
            assert(words(x) == words(join_with_spaces(p)));
            assert(p.push(w) =~= ws);
        }
    }
}

/// Collapsing white space twice is the same as collapsing it once.
pub proof fn law_collapse_is_idempotent(s: Seq<char>)
    ensures
        collapse(collapse(s)) == collapse(s),
{
    lemma_words_are_words(s);
    lemma_words_of_join(words(s));
}

/// Text that is already single-spaced words is left as it is.
pub proof fn law_collapse_keeps_joined_words(ws: Seq<Seq<char>>)
    requires
        forall|k: int|
            0 <= k < ws.len() ==> #[trigger] ws[k].len() > 0 && forall|j: int|
                0 <= j < ws[k].len() ==> !is_white_space(ws[k][j]),
    ensures
        collapse(join_with_spaces(ws)) == join_with_spaces(ws),
{
    lemma_words_of_join(ws);
}

// ---------------------------------------------------------------------------
// Truncation.
// ---------------------------------------------------------------------------

/// The first `limit` characters of `value` (all of them when it is shorter).
pub fn truncate_chars(value: &str, limit: usize) -> (res: String)
    ensures
        res@ == value@.take(if limit < value@.len() { limit as int } else { value@.len() as int }),
{
    let cs = chars_of(value);
    let n = if limit < cs.len() {
        limit
    } else {
        cs.len()
    };
    let mut out: Vec<char> = Vec::new();
    let mut i: usize = 0;
    while i < n
        invariant
            0 <= i <= n <= cs@.len(),
            out@ == cs@.take(i as int),
        decreases n - i,
    {
        out.push(cs[i]);
        i = i + 1;
        assert(out@ =~= cs@.take(i as int));
    }
    string_from_chars(&out)
}

// ---------------------------------------------------------------------------
// Decimal rendering.
// ---------------------------------------------------------------------------

pub open spec fn digit_char(d: nat) -> char
    recommends
        d < 10,
{
    ((d + 48) as u8) as char
}

/// Decimal digits of `n`, most significant first, no leading zeros.
pub open spec fn decimal(n: nat) -> Seq<char>
    decreases n,
{
    if n < 10 {
        seq![digit_char(n)]
    } else {
        decimal(n / 10).push(digit_char(n % 10))
    }
}

fn push_digit(out: &mut Vec<char>, d: u64)
    requires
        d < 10,
    ensures
        final(out)@ == old(out)@.push(digit_char(d as nat)),
{
    let c: char = if d == 0 {
        '0'
    } else if d == 1 {
        '1'
    } else if d == 2 {
        '2'
    } else if d == 3 {
        '3'
    } else if d == 4 {
        '4'
    } else if d == 5 {
        '5'
    } else if d == 6 {
        '6'
    } else if d == 7 {
        '7'
    } else if d == 8 {
        '8'
    } else {
        '9'
    };
    out.push(c);
}

/// Appends the decimal digits of `n` to `out`.
pub fn push_decimal(out: &mut Vec<char>, n: u64)
    ensures
        final(out)@ == old(out)@ + decimal(n as nat),
    decreases n,
{
    if n >= 10 {
        push_decimal(out, n / 10);
        push_digit(out, n % 10);
        assert(decimal(n as nat) == decimal((n / 10) as nat).push(digit_char((n % 10) as nat)));
    } else {
        push_digit(out, n);
    }
}

/// Decimal text of a signed number: a `-` before the digits of its
/// magnitude when it is negative.
pub open spec fn signed_decimal(i: int) -> Seq<char> {
    if i < 0 {
        seq!['-'] + decimal((-i) as nat)
    } else {
        decimal(i as nat)
    }
}

/// Appends the decimal text of `i` to `out`.
pub fn push_signed_decimal(out: &mut Vec<char>, i: i64)
    ensures
        final(out)@ == old(out)@ + signed_decimal(i as int),
{
    if i < 0 {
        out.push('-');
        let magnitude: u64 = (0i128 - (i as i128)) as u64;
        push_decimal(out, magnitude);
        assert(old(out)@.push('-') + decimal(magnitude as nat) =~= old(out)@ + (seq!['-'] + decimal(magnitude as nat)));
    } else {
        push_decimal(out, i as u64);
    }
}

/// `s` begins with `prefix`.
pub open spec fn has_prefix(s: Seq<char>, prefix: Seq<char>) -> bool {
    s.len() >= prefix.len() && s.take(prefix.len() as int) == prefix
}

/// Whether the characters `cs` begin with `prefix`.
pub fn chars_start_with(cs: &Vec<char>, prefix: &str) -> (res: bool)
    ensures
        res == has_prefix(cs@, prefix@),
{
    let p = chars_of(prefix);
    if p.len() > cs.len() {
        return false;
    }
    let mut i: usize = 0;
    while i < p.len()
        invariant
            0 <= i <= p@.len() <= cs@.len(),
            p@ == prefix@,
            forall|k: int| 0 <= k < i ==> cs@[k] == p@[k],
        decreases p@.len() - i,
    {
        if cs[i] != p[i] {
            assert(cs@.take(p@.len() as int)[i as int] != p@[i as int]);
            return false;
        }
        i = i + 1;
    }
    assert(cs@.take(p@.len() as int) =~= p@);
    true
}

/// The characters `cs[from..]` as a string.
pub fn string_from_index(cs: &Vec<char>, from: usize) -> (res: String)
    requires
        from <= cs@.len(),
    ensures
        res@ == cs@.skip(from as int),
{
    let mut out: Vec<char> = Vec::new();
    let mut i: usize = from;
    while i < cs.len()
        invariant
            from <= i <= cs@.len(),
            out@ == cs@.subrange(from as int, i as int),
        decreases cs@.len() - i,
    {
        out.push(cs[i]);
        i = i + 1;
        assert(out@ =~= cs@.subrange(from as int, i as int));
    }
    assert(cs@.subrange(from as int, cs@.len() as int) =~= cs@.skip(from as int));
    string_from_chars(&out)
}

// ---------------------------------------------------------------------------
// Case mapping (Unicode, as std does it).
// ---------------------------------------------------------------------------

/// What std's `str::to_lowercase` returns for `s`.
pub uninterp spec fn spec_lowercase(s: Seq<char>) -> Seq<char>;

/// What std's `str::to_uppercase` returns for `s`.
pub uninterp spec fn spec_uppercase(s: Seq<char>) -> Seq<char>;

/// std's `str::to_lowercase` (full Unicode case mapping); the result is only
/// tied to the name `spec_lowercase`.
#[verifier::external_body]
pub(crate) fn lowercase(s: &str) -> (res: String)
    ensures
        res@ == spec_lowercase(s@),
{
    s.to_lowercase()
}

/// std's `str::to_uppercase` (full Unicode case mapping); the result is only
/// tied to the name `spec_uppercase`.
#[verifier::external_body]
pub(crate) fn uppercase(s: &str) -> (res: String)
    ensures
        res@ == spec_uppercase(s@),
{
    s.to_uppercase()
}

} // verus!
