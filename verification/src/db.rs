//! The pieces of the SQLite layer that are computation rather than I/O:
//! how a database URL names a file, how large the pool may be, and the
//! numbered placeholders of `IN (...)` lists.

use vstd::prelude::*;

use crate::text::{
    chars_of, chars_start_with, decimal, has_prefix, owned, push_decimal, push_str_chars,
    string_from_chars,
    string_from_index,
};

use crate::routes::contains_str;
use crate::text::{opt_view, string_views};
use crate::time::{parse_time, spec_parse_rfc3339, Timestamp};

verus! {

/// The path SQLite opens for a database URL: `:memory:` for the in-memory
/// spellings, the rest after a `sqlite://` or `sqlite:` prefix, otherwise the
/// URL itself.
pub open spec fn database_path(url: Seq<char>) -> Seq<char> {
    if url == "sqlite::memory:"@ || url == ":memory:"@ {
        ":memory:"@
    } else if has_prefix(url, "sqlite://"@) {
        url.skip(9)
    } else if has_prefix(url, "sqlite:"@) {
        url.skip(7)
    } else {
        url
    }
}

pub fn normalize_database_url(database_url: &str) -> (res: String)
    ensures
        res@ == database_path(database_url@),
{
    proof {
        reveal_strlit("sqlite://");
        reveal_strlit("sqlite:");
    }
    let cs = chars_of(database_url);
    if crate::text::str_eq(database_url, "sqlite::memory:") || crate::text::str_eq(
        database_url,
        ":memory:",
    ) {
        owned(":memory:")
    } else if chars_start_with(&cs, "sqlite://") {
        string_from_index(&cs, 9)
    } else if chars_start_with(&cs, "sqlite:") {
        string_from_index(&cs, 7)
    } else {
        owned(database_url)
    }
}

/// Connections in the pool: one for an in-memory database (every connection
/// would otherwise see a different, empty database), eight otherwise.
pub fn pool_max_size(path: &str) -> (res: u32)
    ensures
        path@ == ":memory:"@ ==> res == 1,
        path@ != ":memory:"@ ==> res == 8,
{
    if crate::text::str_eq(path, ":memory:") {
        1
    } else {
        8
    }
}

/// `?1,?2,...,?n`.
pub open spec fn placeholders(n: nat) -> Seq<char>
    decreases n,
{
    if n == 0 {
        seq![]
    } else if n == 1 {
        seq!['?', '1']
    } else {
        placeholders((n - 1) as nat) + seq![',', '?'] + decimal(n)
    }
}

/// The numbered parameters `?1,?2,...,?n` of a SQL `IN (...)` list.
pub fn sql_placeholders(n: usize) -> (res: String)
    ensures
        res@ == placeholders(n as nat),
{
    let mut out: Vec<char> = Vec::new();
    let mut i: usize = 0;
    while i < n
        invariant
            0 <= i <= n,
            out@ == placeholders(i as nat),
        decreases n - i,
    {
        let ghost before = out@;
        if i > 0 {
            out.push(',');
        }
        out.push('?');
        push_decimal(&mut out, (i + 1) as u64);
        i = i + 1;
        proof {
            if i == 1 {
                assert(decimal(1) == seq!['1']);
                assert(out@ =~= seq!['?', '1']);
            } else {
                assert(out@ =~= before + seq![',', '?'] + decimal(i as nat));
            }
        }
    }
    string_from_chars(&out)
}

/// The placeholder `?k` of the parameter after `n` listed ones.
pub fn next_placeholder(n: usize) -> (res: String)
    requires
        n < usize::MAX,
    ensures
        res@ == seq!['?'] + decimal(n as nat + 1),
{
    let mut out: Vec<char> = Vec::new();
    out.push('?');
    push_decimal(&mut out, (n + 1) as u64);
    string_from_chars(&out)
}

/// The query listing the ticker universe: every filter that is given adds
/// its condition (the sector and market-cap bounds as parameters, in that
/// order), and the rows come sorted by ticker.
pub open spec fn ticker_universe_sql(
    active_only: bool,
    by_sector: bool,
    min_cap: bool,
    max_cap: bool,
) -> Seq<char> {
    "SELECT * FROM ticker_universe WHERE 1=1"@
        + (if active_only { " AND is_active = 1"@ } else { seq![] })
        + (if by_sector { " AND sector = ?"@ } else { seq![] })
        + (if min_cap { " AND market_cap_billion >= ?"@ } else { seq![] })
        + (if max_cap { " AND market_cap_billion <= ?"@ } else { seq![] })
        + " ORDER BY ticker ASC"@
}

pub fn ticker_universe_query(active_only: bool, by_sector: bool, min_cap: bool, max_cap: bool) -> (res:
    String)
    ensures
        res@ == ticker_universe_sql(active_only, by_sector, min_cap, max_cap),
{
    let mut out: Vec<char> = Vec::new();
    push_str_chars(&mut out, "SELECT * FROM ticker_universe WHERE 1=1");
    let ghost s0 = out@;
    if active_only {
        push_str_chars(&mut out, " AND is_active = 1");
    }
    let ghost s1 = out@;
    assert(s1 == s0 + (if active_only { " AND is_active = 1"@ } else { seq![] }));
    if by_sector {
        push_str_chars(&mut out, " AND sector = ?");
    }
    let ghost s2 = out@;
    assert(s2 == s1 + (if by_sector { " AND sector = ?"@ } else { seq![] }));
    if min_cap {
        push_str_chars(&mut out, " AND market_cap_billion >= ?");
    }
    let ghost s3 = out@;
    assert(s3 == s2 + (if min_cap { " AND market_cap_billion >= ?"@ } else { seq![] }));
    if max_cap {
        push_str_chars(&mut out, " AND market_cap_billion <= ?");
    }
    let ghost s4 = out@;
    assert(s4 == s3 + (if max_cap { " AND market_cap_billion <= ?"@ } else { seq![] }));
    push_str_chars(&mut out, " ORDER BY ticker ASC");
    string_from_chars(&out)
}

// ---------------------------------------------------------------------------
// Migration order.
// ---------------------------------------------------------------------------

/// Lexicographic order of names, character by character (for UTF-8 file
/// names the same as byte order).
pub open spec fn name_le(a: Seq<char>, b: Seq<char>) -> bool
    decreases a.len(),
{
    if a.len() == 0 {
        true
    } else if b.len() == 0 {
        false
    } else if a[0] != b[0] {
        (a[0] as int) < (b[0] as int)
    } else {
        name_le(a.drop_first(), b.drop_first())
    }
}

/// A name comes before every name it is a prefix of.
pub proof fn law_prefix_comes_first(a: Seq<char>, b: Seq<char>)
    requires
        a.len() <= b.len(),
        b.take(a.len() as int) == a,
    ensures
        name_le(a, b),
    decreases a.len(),
{
    if a.len() > 0 {
        assert(b[0] == b.take(a.len() as int)[0]);
        assert(b.drop_first().take(a.drop_first().len() as int) =~= a.drop_first());
        law_prefix_comes_first(a.drop_first(), b.drop_first());
    }
}

/// At the first position where two names differ, the smaller character
/// decides the order, strictly.
pub proof fn law_first_difference_decides(a: Seq<char>, b: Seq<char>, k: int)
    requires
        0 <= k < a.len(),
        k < b.len(),
        a.take(k) == b.take(k),
        (a[k] as int) < (b[k] as int),
    ensures
        name_le(a, b),
        !name_le(b, a),
    decreases k,
{
    if k > 0 {
        assert(a[0] == a.take(k)[0] && b[0] == b.take(k)[0]);
        assert(a.drop_first().take(k - 1) =~= a.take(k).drop_first());
        assert(b.drop_first().take(k - 1) =~= b.take(k).drop_first());
        law_first_difference_decides(a.drop_first(), b.drop_first(), k - 1);
    }
}

proof fn lemma_name_le_total(a: Seq<char>, b: Seq<char>)
    ensures
        name_le(a, b) || name_le(b, a),
    decreases a.len(),
{
    if a.len() > 0 && b.len() > 0 {
        if a[0] == b[0] {
            lemma_name_le_total(a.drop_first(), b.drop_first());
        }
    }
}

proof fn lemma_name_le_transitive(a: Seq<char>, b: Seq<char>, c: Seq<char>)
    requires
        name_le(a, b),
        name_le(b, c),
    ensures
        name_le(a, c),
    decreases a.len(),
{
    if a.len() > 0 && b.len() > 0 && c.len() > 0 && a[0] == b[0] && b[0] == c[0] {
        lemma_name_le_transitive(a.drop_first(), b.drop_first(), c.drop_first());
    }
}

fn name_le_exec(a: &str, b: &str) -> (res: bool)
    ensures
        res == name_le(a@, b@),
{
    let x = chars_of(a);
    let y = chars_of(b);
    let mut i: usize = 0;
    assert(a@.skip(0) =~= a@);
    assert(b@.skip(0) =~= b@);
    while i < x.len() && i < y.len() && x[i] == y[i]
        invariant
            0 <= i <= x@.len(),
            i <= y@.len(),
            x@ == a@,
            y@ == b@,
            forall|k: int| 0 <= k < i ==> x@[k] == y@[k],
            name_le(a@, b@) == name_le(a@.skip(i as int), b@.skip(i as int)),
        decreases x@.len() - i,
    {
        assert(a@.skip(i as int).drop_first() =~= a@.skip(i + 1));
        assert(b@.skip(i as int).drop_first() =~= b@.skip(i + 1));
        i = i + 1;
    }
    if i == x.len() {
        assert(a@.skip(i as int).len() == 0);
        true
    } else if i == y.len() {
        assert(b@.skip(i as int).len() == 0);
        false
    } else {
        assert(a@.skip(i as int)[0] == x@[i as int]);
        assert(b@.skip(i as int)[0] == y@[i as int]);
        x[i] < y[i]
    }
}

/// The names are in ascending order.
pub open spec fn names_sorted(s: Seq<Seq<char>>) -> bool {
    forall|i: int, j: int| 0 <= i < j < s.len() ==> name_le(#[trigger] s[i], #[trigger] s[j])
}

pub open spec fn name_views(v: Seq<String>) -> Seq<Seq<char>> {
    v.map_values(|s: String| s@)
}

/// Migration file names in the order they are applied: ascending by name.
/// The result holds the same names, each as often as in the input.
pub fn sort_migration_names(names: Vec<String>) -> (res: Vec<String>)
    ensures
        names_sorted(name_views(res@)),
        name_views(res@).to_multiset() == name_views(names@).to_multiset(),
{
    broadcast use vstd::seq_lib::group_to_multiset_ensures;

    let mut out: Vec<String> = Vec::new();
    let mut i: usize = 0;
    while i < names.len()
        invariant
            0 <= i <= names@.len(),
            names_sorted(name_views(out@)),
            name_views(out@).to_multiset() == name_views(names@.take(i as int)).to_multiset(),
        decreases names@.len() - i,
    {
        let x = names[i].clone();
        let mut p: usize = 0;
        while p < out.len() && name_le_exec(out[p].as_str(), x.as_str())
            invariant
                0 <= p <= out@.len(),
                forall|k: int| 0 <= k < p ==> name_le(#[trigger] out@[k]@, x@),
            decreases out@.len() - p,
        {
            p = p + 1;
        }
        let ghost before = name_views(out@);
        proof {
            if p < out@.len() {
                lemma_name_le_total(out@[p as int]@, x@);
            }
        }
        out.insert(p, x);
        proof {
            let after = name_views(out@);
            assert(after =~= before.insert(p as int, x@));
            assert forall|a: int, b: int| 0 <= a < b < after.len() implies name_le(
                #[trigger] after[a],
                #[trigger] after[b],
            ) by {
                if b < p {
                    assert(after[a] == before[a] && after[b] == before[b]);
                } else if b == p {
                    assert(after[a] == before[a]);
                } else if a < p {
                    assert(after[a] == before[a] && after[b] == before[b - 1]);
                    if p < before.len() {
                        assert(name_le(before[a], x@));
                        assert(name_le(x@, before[p as int]));
                        if b - 1 > p {
                            assert(name_le(before[p as int], before[b - 1]));
                            lemma_name_le_transitive(x@, before[p as int], before[b - 1]);
                        }
                        lemma_name_le_transitive(before[a], x@, before[b - 1]);
                    }
                } else if a == p {
                    assert(after[b] == before[b - 1]);
                    if b - 1 > p {
                        assert(name_le(before[p as int], before[b - 1]));
                        lemma_name_le_transitive(x@, before[p as int], before[b - 1]);
                    }
                } else {
                    assert(after[a] == before[a - 1] && after[b] == before[b - 1]);
                }
            }
            vstd::seq_lib::to_multiset_insert(before, p as int, x@);
            assert(after.to_multiset() == before.to_multiset().insert(x@));
            assert(x@ == names@[i as int]@);
            let prev = name_views(names@.take(i as int));
            assert(name_views(names@.take(i + 1)) =~= prev.push(names@[i as int]@));
            prev.to_multiset_ensures();
        }
        i = i + 1;
    }
    assert(names@.take(names@.len() as int) =~= names@);
    out
}

/// The names not yet applied.
pub open spec fn not_applied(applied: Seq<Seq<char>>) -> spec_fn(Seq<char>) -> bool {
    |n: Seq<char>| !applied.contains(n)
}

proof fn lemma_filter_sorted(s: Seq<Seq<char>>, p: spec_fn(Seq<char>) -> bool)
    requires
        names_sorted(s),
    ensures
        names_sorted(s.filter(p)),
    decreases s.len(),
{
    reveal(Seq::filter);
    if s.len() > 0 {
        let d = s.drop_last();
        let x = s.last();
        assert(names_sorted(d)) by {
            assert forall|a: int, b: int| 0 <= a < b < d.len() implies name_le(
                #[trigger] d[a],
                #[trigger] d[b],
            ) by {
                assert(d[a] == s[a] && d[b] == s[b]);
            }
        }
        lemma_filter_sorted(d, p);
        let f = d.filter(p);
        if p(x) {
            let g = f.push(x);
            assert(s.filter(p) == g);
            assert forall|a: int, b: int| 0 <= a < b < g.len() implies name_le(
                #[trigger] g[a],
                #[trigger] g[b],
            ) by {
                if b < f.len() {
                    assert(g[a] == f[a] && g[b] == f[b]);
                } else {
                    assert(g[a] == f[a]);
                    assert(f.contains(f[a]));
                    d.lemma_filter_contains_rev(p, f[a]);
                    let j = choose|j: int| 0 <= j < d.len() && d[j] == f[a];
                    assert(s[j] == d[j]);
                    assert(name_le(s[j], s[s.len() - 1]));
                }
            }
        }
    }
}

proof fn lemma_filter_count(s: Seq<Seq<char>>, p: spec_fn(Seq<char>) -> bool, v: Seq<char>)
    ensures
        s.filter(p).to_multiset().count(v) == if p(v) {
            s.to_multiset().count(v)
        } else {
            0
        },
    decreases s.len(),
{
    broadcast use vstd::seq_lib::group_to_multiset_ensures;

    reveal(Seq::filter);
    if s.len() == 0 {
        assert(s.filter(p) == s);
        assert(s.to_multiset().len() == 0);
    } else {
        let d = s.drop_last();
        let x = s.last();
        assert(d.push(x) =~= s);
        lemma_filter_count(d, p, v);
        d.to_multiset_ensures();
        let f = d.filter(p);
        f.to_multiset_ensures();
        if p(x) {
            assert(s.filter(p) == f.push(x));
        } else {
            assert(s.filter(p) == f);
        }
    }
}

/// The migrations still to apply: the names not in `applied`, in the order
/// they are applied (ascending by name), each as often as in `names`.
pub fn pending_migrations(names: Vec<String>, applied: &Vec<String>) -> (res: Vec<String>)
    ensures
        names_sorted(name_views(res@)),
        name_views(res@).to_multiset() == name_views(names@).filter(
            not_applied(name_views(applied@)),
        ).to_multiset(),
{
    let ghost p = not_applied(name_views(applied@));
    let ghost original = name_views(names@);
    let sorted = sort_migration_names(names);
    let ghost sv = name_views(sorted@);
    let mut out: Vec<String> = Vec::new();
    let mut i: usize = 0;
    proof {
        reveal(Seq::filter);
        assert(sv.take(0) =~= Seq::<Seq<char>>::empty());
        assert(name_views(out@) =~= sv.take(0).filter(p));
    }
    while i < sorted.len()
        invariant
            0 <= i <= sorted@.len(),
            sv == name_views(sorted@),
            p == not_applied(name_views(applied@)),
            name_views(out@) == sv.take(i as int).filter(p),
        decreases sorted@.len() - i,
    {
        let ghost before = name_views(out@);
        assert(sv.take(i + 1) =~= sv.take(i as int).push(sv[i as int]));
        proof {
            sv.take(i as int).lemma_filter_push(sv[i as int], p);
        }
        if !contains_str(applied, sorted[i].as_str()) {
            out.push(sorted[i].clone());
            assert(name_views(out@) =~= before.push(sv[i as int]));
        } else {
            assert(name_views(applied@) =~= string_views(applied@));
        }
        i = i + 1;
    }
    proof {
        assert(sv.take(sorted@.len() as int) =~= sv);
        lemma_filter_sorted(sv, p);
        assert forall|v: Seq<char>| #[trigger] sv.filter(p).to_multiset().count(v)
            == original.filter(p).to_multiset().count(v) by {
            lemma_filter_count(sv, p, v);
            lemma_filter_count(original, p, v);
        }
        assert(sv.filter(p).to_multiset() =~= original.filter(p).to_multiset());
    }
    out
}

/// Applying the pending migrations leaves none pending: once the names that
/// ran are recorded as applied, a second pass finds nothing to run.
pub proof fn law_applied_migrations_leave_nothing_pending(
    names: Seq<Seq<char>>,
    applied: Seq<Seq<char>>,
    ran: Seq<Seq<char>>,
)
    requires
        ran.to_multiset() == names.filter(not_applied(applied)).to_multiset(),
    ensures
        names.filter(not_applied(applied + ran)).len() == 0,
{
    broadcast use {vstd::seq_lib::group_to_multiset_ensures, vstd::seq_lib::group_filter_ensures};

    let p = not_applied(applied);
    let q = not_applied(applied + ran);
    assert forall|i: int| 0 <= i < names.len() implies !q(#[trigger] names[i]) by {
        let n = names[i];
        if !applied.contains(n) {
            assert(p(n));
            assert(names.filter(p).contains(n));
            names.filter(p).to_multiset_ensures();
            ran.to_multiset_ensures();
            assert(names.filter(p).to_multiset().count(n) > 0);
            assert(ran.to_multiset().count(n) > 0);
            assert(ran.contains(n));
            let j = choose|j: int| 0 <= j < ran.len() && ran[j] == n;
            assert((applied + ran)[applied.len() + j] == n);
        } else {
            let j = choose|j: int| 0 <= j < applied.len() && applied[j] == n;
            assert((applied + ran)[j] == n);
        }
    }
    assert(names.all(|x: Seq<char>| !q(x)));
    names.lemma_all_neg_filter_empty(q);
}

/// A row of the `runs` table as SQLite hands it back, its instants still
/// text.
pub struct RunRow {
    pub id: String,
    pub ticker: String,
    pub question: String,
    pub status: String,
    pub created_at: String,
    pub updated_at: String,
    pub final_iteration_number: Option<i64>,
    pub final_memo_markdown: Option<String>,
    pub final_memo_html: Option<String>,
    pub summary: Option<String>,
}

/// A research run read from the database.
pub struct RunRecord {
    pub id: String,
    pub ticker: String,
    pub question: String,
    pub status: String,
    pub created_at: Timestamp,
    pub updated_at: Timestamp,
    pub final_iteration_number: Option<i64>,
    pub final_memo_markdown: Option<String>,
    pub final_memo_html: Option<String>,
    pub summary: Option<String>,
}

/// The instant columns of a row.
#[derive(PartialEq, Eq, Structural)]
pub enum TimestampColumn {
    CreatedAt,
    UpdatedAt,
}

/// Why a stored row cannot be read.
#[derive(PartialEq, Eq, Structural)]
pub enum RowError {
    /// The column's text is not an RFC 3339 instant.
    InvalidTimestamp(TimestampColumn),
}

/// The record of `row` holds its fields as they are and the given instants.
pub open spec fn run_record_of(r: RunRecord, row: RunRow, created: Timestamp, updated: Timestamp) -> bool {
    &&& r.id@ == row.id@
    &&& r.ticker@ == row.ticker@
    &&& r.question@ == row.question@
    &&& r.status@ == row.status@
    &&& r.created_at == created
    &&& r.updated_at == updated
    &&& r.final_iteration_number == row.final_iteration_number
    &&& opt_view(r.final_memo_markdown) == opt_view(row.final_memo_markdown)
    &&& opt_view(r.final_memo_html) == opt_view(row.final_memo_html)
    &&& opt_view(r.summary) == opt_view(row.summary)
}

/// Builds the record of `row` from the instants its two columns were read
/// as: fails on the first column, in row order, that did not parse.
pub fn run_record_from_parts(
    row: RunRow,
    created: Option<Timestamp>,
    updated: Option<Timestamp>,
) -> (res: Result<RunRecord, RowError>)
    ensures
        created is None ==> res == Err::<RunRecord, RowError>(
            RowError::InvalidTimestamp(TimestampColumn::CreatedAt),
        ),
        created is Some && updated is None ==> res == Err::<RunRecord, RowError>(
            RowError::InvalidTimestamp(TimestampColumn::UpdatedAt),
        ),
        res matches Ok(r) ==> created is Some && updated is Some && run_record_of(
            r,
            row,
            created->0,
            updated->0,
        ),
        created is Some && updated is Some ==> res is Ok,
{
    let created_at = match created {
        Some(t) => t,
        None => return Err(RowError::InvalidTimestamp(TimestampColumn::CreatedAt)),
    };
    let updated_at = match updated {
        Some(t) => t,
        None => return Err(RowError::InvalidTimestamp(TimestampColumn::UpdatedAt)),
    };
    Ok(RunRecord {
        id: row.id,
        ticker: row.ticker,
        question: row.question,
        status: row.status,
        created_at,
        updated_at,
        final_iteration_number: row.final_iteration_number,
        final_memo_markdown: row.final_memo_markdown,
        final_memo_html: row.final_memo_html,
        summary: row.summary,
    })
}

/// Reads a stored run: its two instant columns are parsed as RFC 3339.
pub fn run_from_row(row: RunRow) -> (res: Result<RunRecord, RowError>)
    ensures
        res is Ok <==> (spec_parse_rfc3339(row.created_at@) is Some && spec_parse_rfc3339(
            row.updated_at@,
        ) is Some),
        spec_parse_rfc3339(row.created_at@) is None ==> res == Err::<RunRecord, RowError>(
            RowError::InvalidTimestamp(TimestampColumn::CreatedAt),
        ),
        spec_parse_rfc3339(row.created_at@) is Some && spec_parse_rfc3339(row.updated_at@) is None
            ==> res == Err::<RunRecord, RowError>(
            RowError::InvalidTimestamp(TimestampColumn::UpdatedAt),
        ),
        res matches Ok(r) ==> run_record_of(
            r,
            row,
            spec_parse_rfc3339(row.created_at@)->0,
            spec_parse_rfc3339(row.updated_at@)->0,
        ),
{
    let created = parse_time(row.created_at.as_str());
    let updated = parse_time(row.updated_at.as_str());
    run_record_from_parts(row, created, updated)
}

} // verus!
