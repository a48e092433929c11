//! The decisions of the HTTP handlers: how request fields are cleaned and
//! validated, which error a bad request gets, and which status transitions
//! a run allows. Each function takes the values a handler has read and
//! returns what the handler answers or stores; the database and network
//! work around them is not part of the library.

use vstd::prelude::*;

use crate::error::AppError;
use crate::models::{
    AlertQuery, CreateBookmarkRequest, CreateRunTemplateRequest, CreateSourceAnnotationRequest,
    DeleteBookmarkQuery, DeleteSourceAnnotationQuery, UpdateRunTemplateRequest,
};
use crate::text::{
    chars_of, lowercase, opt_view, owned, push_str_chars, spec_lowercase, spec_uppercase, str_eq,
    string_from_chars, string_views, trim, trim_string, uppercase,
};

verus! {

/// `e` is a bad-request error with message `msg`.
pub open spec fn is_bad_request(e: AppError, msg: Seq<char>) -> bool {
    e matches AppError::BadRequest(m) && m@ == msg
}

/// An optional field trimmed, and dropped when nothing is left.
pub open spec fn nonblank(o: Option<String>) -> Option<Seq<char>> {
    match o {
        Some(s) => if trim(s@).len() > 0 {
            Some(trim(s@))
        } else {
            None
        },
        None => None,
    }
}

pub fn trimmed_nonblank(o: &Option<String>) -> (res: Option<String>)
    ensures
        opt_view(res) == nonblank(*o),
{
    match o {
        Some(s) => {
            let t = trim_string(s.as_str());
            if t.as_str().is_empty() {
                None
            } else {
                Some(t)
            }
        },
        None => None,
    }
}

/// The trimmed value of a required field, or a bad request with `message`
/// when nothing is left after trimming.
pub fn require_nonblank(raw: &str, message: &str) -> (res: Result<String, AppError>)
    ensures
        trim(raw@).len() == 0 ==> (res matches Err(e) && is_bad_request(e, message@)),
        trim(raw@).len() > 0 ==> (res matches Ok(s) && s@ == trim(raw@)),
{
    let t = trim_string(raw);
    if t.as_str().is_empty() {
        Err(AppError::bad_request(message))
    } else {
        Ok(t)
    }
}

// ---------------------------------------------------------------------------
// Bookmarks and source annotations.
// ---------------------------------------------------------------------------

/// The entity type named by already lower-cased text: `run`, `comparison`
/// or `source`; `None` for anything else.
pub open spec fn entity_type_of_lowercased(n: Seq<char>) -> Option<Seq<char>> {
    if n == "run"@ {
        Some("run"@)
    } else if n == "comparison"@ {
        Some("comparison"@)
    } else if n == "source"@ {
        Some("source"@)
    } else {
        None
    }
}

/// The accepted entity types are exactly `run`, `comparison` and `source`,
/// each given back as the same text.
pub proof fn law_entity_types_are_the_three_kinds(n: Seq<char>)
    ensures
        entity_type_of_lowercased(n) is Some <==> (n == "run"@ || n == "comparison"@ || n
            == "source"@),
        entity_type_of_lowercased(n) is Some ==> entity_type_of_lowercased(n) == Some(n),
{
}

/// The entity type a bookmark refers to, after trimming and lower-casing.
pub open spec fn bookmark_entity_type(raw: Seq<char>) -> Option<Seq<char>> {
    entity_type_of_lowercased(spec_lowercase(trim(raw)))
}

/// Decides the entity type from the trimmed, lower-cased text.
pub fn entity_type_from_lowercased(n: &str) -> (res: Result<&'static str, AppError>)
    ensures
        res is Ok <==> entity_type_of_lowercased(n@) is Some,
        res matches Ok(t) ==> entity_type_of_lowercased(n@) == Some(t@),
        res matches Err(e) ==> is_bad_request(e, "entity_type must be run, comparison, or source"@),
{
    if str_eq(n, "run") {
        Ok("run")
    } else if str_eq(n, "comparison") {
        Ok("comparison")
    } else if str_eq(n, "source") {
        Ok("source")
    } else {
        Err(AppError::bad_request("entity_type must be run, comparison, or source"))
    }
}

pub fn normalize_bookmark_entity_type(raw: &str) -> (res: Result<&'static str, AppError>)
    ensures
        res is Ok <==> bookmark_entity_type(raw@) is Some,
        res matches Ok(t) ==> bookmark_entity_type(raw@) == Some(t@),
        res matches Err(e) ==> is_bad_request(e, "entity_type must be run, comparison, or source"@),
{
    let t = trim_string(raw);
    let n = lowercase(t.as_str());
    entity_type_from_lowercased(n.as_str())
}

/// A bookmark to store, with every field cleaned.
pub struct BookmarkInput {
    pub entity_type: String,
    pub entity_id: String,
    pub title: String,
    pub note: Option<String>,
    pub target_path: String,
}

/// The message of the first check a bookmark request fails, if any.
pub open spec fn bookmark_error(req: CreateBookmarkRequest) -> Option<Seq<char>> {
    if bookmark_entity_type(req.entity_type@) is None {
        Some("entity_type must be run, comparison, or source"@)
    } else if trim(req.entity_id@).len() == 0 {
        Some("entity_id is required"@)
    } else if trim(req.title@).len() == 0 {
        Some("title is required"@)
    } else if trim(req.target_path@).len() == 0 {
        Some("target_path is required"@)
    } else {
        None
    }
}

pub fn validate_bookmark(req: &CreateBookmarkRequest) -> (res: Result<BookmarkInput, AppError>)
    ensures
        res is Err <==> bookmark_error(*req) is Some,
        res matches Err(e) ==> is_bad_request(e, bookmark_error(*req)->0),
        res matches Ok(b) ==> {
            &&& bookmark_entity_type(req.entity_type@) == Some(b.entity_type@)
            &&& b.entity_id@ == trim(req.entity_id@)
            &&& b.title@ == trim(req.title@)
            &&& opt_view(b.note) == nonblank(req.note)
            &&& b.target_path@ == trim(req.target_path@)
        },
{
    let entity_type = normalize_bookmark_entity_type(req.entity_type.as_str())?;
    let entity_id = require_nonblank(req.entity_id.as_str(), "entity_id is required")?;
    let title = require_nonblank(req.title.as_str(), "title is required")?;
    let target_path = require_nonblank(req.target_path.as_str(), "target_path is required")?;
    let note = trimmed_nonblank(&req.note);
    Ok(BookmarkInput { entity_type: owned(entity_type), entity_id, title, note, target_path })
}

/// The key of a bookmark to delete.
pub struct BookmarkKey {
    pub entity_type: String,
    pub entity_id: String,
}

pub fn validate_bookmark_delete(q: &DeleteBookmarkQuery) -> (res: Result<BookmarkKey, AppError>)
    ensures
        bookmark_entity_type(q.entity_type@) is None ==> (res matches Err(e) && is_bad_request(
            e,
            "entity_type must be run, comparison, or source"@,
        )),
        bookmark_entity_type(q.entity_type@) is Some && trim(q.entity_id@).len() == 0
            ==> (res matches Err(e) && is_bad_request(e, "entity_id is required"@)),
        bookmark_entity_type(q.entity_type@) is Some && trim(q.entity_id@).len() > 0
            ==> (res matches Ok(k) && bookmark_entity_type(q.entity_type@) == Some(
            k.entity_type@,
        ) && k.entity_id@ == trim(q.entity_id@)),
{
    let entity_type = normalize_bookmark_entity_type(q.entity_type.as_str())?;
    let entity_id = require_nonblank(q.entity_id.as_str(), "entity_id is required")?;
    Ok(BookmarkKey { entity_type: owned(entity_type), entity_id })
}

/// A source annotation to store, with every field cleaned.
pub struct AnnotationInput {
    pub run_id: String,
    pub selected_text: String,
    pub annotation_markdown: String,
    pub tag: Option<String>,
}

/// The message of the first check an annotation request fails, if any.
pub open spec fn annotation_error(req: CreateSourceAnnotationRequest) -> Option<Seq<char>> {
    if trim(req.run_id@).len() == 0 {
        Some("run_id is required"@)
    } else if trim(req.selected_text@).len() == 0 {
        Some("selected_text is required"@)
    } else if trim(req.annotation_markdown@).len() == 0 {
        Some("annotation_markdown is required"@)
    } else {
        None
    }
}

pub fn validate_source_annotation(req: &CreateSourceAnnotationRequest) -> (res: Result<
    AnnotationInput,
    AppError,
>)
    ensures
        res is Err <==> annotation_error(*req) is Some,
        res matches Err(e) ==> is_bad_request(e, annotation_error(*req)->0),
        res matches Ok(a) ==> {
            &&& a.run_id@ == trim(req.run_id@)
            &&& a.selected_text@ == trim(req.selected_text@)
            &&& a.annotation_markdown@ == trim(req.annotation_markdown@)
            &&& opt_view(a.tag) == nonblank(req.tag)
        },
{
    let run_id = require_nonblank(req.run_id.as_str(), "run_id is required")?;
    let selected_text = require_nonblank(req.selected_text.as_str(), "selected_text is required")?;
    let annotation_markdown = require_nonblank(
        req.annotation_markdown.as_str(),
        "annotation_markdown is required",
    )?;
    let tag = trimmed_nonblank(&req.tag);
    Ok(AnnotationInput { run_id, selected_text, annotation_markdown, tag })
}

pub fn validate_annotation_delete(q: &DeleteSourceAnnotationQuery) -> (res: Result<
    String,
    AppError,
>)
    ensures
        trim(q.annotation_id@).len() == 0 ==> (res matches Err(e) && is_bad_request(
            e,
            "annotation_id is required"@,
        )),
        trim(q.annotation_id@).len() > 0 ==> (res matches Ok(id) && id@ == trim(q.annotation_id@)),
{
    require_nonblank(q.annotation_id.as_str(), "annotation_id is required")
}

// ---------------------------------------------------------------------------
// Run templates and alerts.
// ---------------------------------------------------------------------------

/// A run template to store, with every field cleaned.
pub struct TemplateInput {
    pub name: String,
    pub question_template: String,
    pub description: Option<String>,
}

/// The message of the first check a template fails, if any.
pub open spec fn template_error(name: Seq<char>, question_template: Seq<char>) -> Option<
    Seq<char>,
> {
    if trim(name).len() == 0 {
        Some("template name is required"@)
    } else if trim(question_template).len() == 0 {
        Some("question_template is required"@)
    } else {
        None
    }
}

pub fn validate_run_template(
    name: &str,
    question_template: &str,
    description: &Option<String>,
) -> (res: Result<TemplateInput, AppError>)
    ensures
        res is Err <==> template_error(name@, question_template@) is Some,
        res matches Err(e) ==> is_bad_request(e, template_error(name@, question_template@)->0),
        res matches Ok(t) ==> {
            &&& t.name@ == trim(name@)
            &&& t.question_template@ == trim(question_template@)
            &&& opt_view(t.description) == nonblank(*description)
        },
{
    let name = require_nonblank(name, "template name is required")?;
    let question_template = require_nonblank(question_template, "question_template is required")?;
    let description = trimmed_nonblank(description);
    Ok(TemplateInput { name, question_template, description })
}

pub fn validate_create_run_template(req: &CreateRunTemplateRequest) -> (res: Result<
    TemplateInput,
    AppError,
>)
    ensures
        res is Err <==> template_error(req.name@, req.question_template@) is Some,
        res matches Err(e) ==> is_bad_request(
            e,
            template_error(req.name@, req.question_template@)->0,
        ),
        res matches Ok(t) ==> {
            &&& t.name@ == trim(req.name@)
            &&& t.question_template@ == trim(req.question_template@)
            &&& opt_view(t.description) == nonblank(req.description)
        },
{
    validate_run_template(req.name.as_str(), req.question_template.as_str(), &req.description)
}

pub fn validate_update_run_template(req: &UpdateRunTemplateRequest) -> (res: Result<
    TemplateInput,
    AppError,
>)
    ensures
        res is Err <==> template_error(req.name@, req.question_template@) is Some,
        res matches Err(e) ==> is_bad_request(
            e,
            template_error(req.name@, req.question_template@)->0,
        ),
        res matches Ok(t) ==> {
            &&& t.name@ == trim(req.name@)
            &&& t.question_template@ == trim(req.question_template@)
            &&& opt_view(t.description) == nonblank(req.description)
        },
{
    validate_run_template(req.name.as_str(), req.question_template.as_str(), &req.description)
}

/// The watchlist and optional status filter of an alert listing.
pub fn validate_alert_query(q: &AlertQuery) -> (res: Result<(String, Option<String>), AppError>)
    ensures
        trim(q.watchlist_id@).len() == 0 ==> (res matches Err(e) && is_bad_request(
            e,
            "watchlist_id is required"@,
        )),
        trim(q.watchlist_id@).len() > 0 ==> (res matches Ok((w, s)) && w@ == trim(q.watchlist_id@)
            && opt_view(s) == nonblank(q.status)),
{
    let watchlist_id = require_nonblank(q.watchlist_id.as_str(), "watchlist_id is required")?;
    Ok((watchlist_id, trimmed_nonblank(&q.status)))
}

// ---------------------------------------------------------------------------
// Ticker lists.
// ---------------------------------------------------------------------------


/// The items of `s` that do not occur earlier in `s`, in their order.
pub open spec fn first_occurrences(s: Seq<Seq<char>>) -> Seq<Seq<char>>
    decreases s.len(),
{
    if s.len() == 0 {
        seq![]
    } else {
        let r = first_occurrences(s.drop_last());
        if s.drop_last().contains(s.last()) {
            r
        } else {
            r.push(s.last())
        }
    }
}

/// An item occurs in `first_occurrences(s)` exactly when it occurs in `s`.
pub proof fn law_unique_keeps_every_item(s: Seq<Seq<char>>)
    ensures
        forall|x: Seq<char>| first_occurrences(s).contains(x) <==> s.contains(x),
    decreases s.len(),
{
    if s.len() > 0 {
        let p = s.drop_last();
        law_unique_keeps_every_item(p);
        let r = first_occurrences(p);
        assert forall|x: Seq<char>| first_occurrences(s).contains(x) <==> s.contains(x) by {
            if s.contains(x) {
                let i = choose|i: int| 0 <= i < s.len() && s[i] == x;
                if i < p.len() {
                    assert(p[i] == x);
                    assert(p.contains(x));
                }
            }
            if p.contains(x) {
                let i = choose|i: int| 0 <= i < p.len() && p[i] == x;
                assert(s[i] == x);
            }
            if !p.contains(s.last()) {
                assert(r.push(s.last()).last() == s.last());
                if r.push(s.last()).contains(x) {
                    let i = choose|i: int| 0 <= i < r.push(s.last()).len() && r.push(s.last())[i] == x;
                    if i < r.len() {
                        assert(r[i] == x);
                    }
                }
                if r.contains(x) {
                    let i = choose|i: int| 0 <= i < r.len() && r[i] == x;
                    assert(r.push(s.last())[i] == x);
                }
            }
        }
    }
}

/// `first_occurrences(s)` holds no item twice.
pub proof fn law_unique_has_no_duplicates(s: Seq<Seq<char>>)
    ensures
        first_occurrences(s).no_duplicates(),
    decreases s.len(),
{
    if s.len() > 0 {
        let p = s.drop_last();
        law_unique_has_no_duplicates(p);
        law_unique_keeps_every_item(p);
        let r = first_occurrences(p);
        if !p.contains(s.last()) {
            let r2 = r.push(s.last());
            assert forall|i: int, j: int| 0 <= i < r2.len() && 0 <= j < r2.len() && i != j implies r2[i]
                != r2[j] by {
                if i < r.len() && j < r.len() {
                    assert(r2[i] == r[i] && r2[j] == r[j]);
                } else if i < r.len() {
                    assert(r.contains(r[i]));
                } else if j < r.len() {
                    assert(r.contains(r[j]));
                }
            }
        }
    }
}

/// A list without repeats is left as it is.
pub proof fn law_unique_fixes_lists_without_repeats(s: Seq<Seq<char>>)
    requires
        s.no_duplicates(),
    ensures
        first_occurrences(s) == s,
    decreases s.len(),
{
    if s.len() > 0 {
        let p = s.drop_last();
        assert(p.no_duplicates());
        law_unique_fixes_lists_without_repeats(p);
        if p.contains(s.last()) {
            let i = choose|i: int| 0 <= i < p.len() && p[i] == s.last();
            assert(s[i] == s[s.len() - 1]);
        }
        assert(p.push(s.last()) =~= s);
    }
}

/// Removing repeats twice is the same as removing them once.
pub proof fn law_unique_is_idempotent(s: Seq<Seq<char>>)
    ensures
        first_occurrences(first_occurrences(s)) == first_occurrences(s),
{
    law_unique_has_no_duplicates(s);
    law_unique_fixes_lists_without_repeats(first_occurrences(s));
}

/// The first item is always kept, in first place.
pub proof fn law_unique_keeps_first_item(s: Seq<Seq<char>>)
    requires
        s.len() > 0,
    ensures
        first_occurrences(s).len() > 0,
        first_occurrences(s)[0] == s[0],
    decreases s.len(),
{
    if s.len() > 1 {
        let p = s.drop_last();
        law_unique_keeps_first_item(p);
        let r = first_occurrences(p);
        assert(p[0] == s[0]);
        if p.contains(s.last()) {
            assert(first_occurrences(s) == r);
        } else {
            assert(first_occurrences(s) == r.push(s.last()));
            assert(r.push(s.last())[0] == r[0]);
        }
    } else {
        assert(!s.drop_last().contains(s.last()));
        assert(first_occurrences(s.drop_last()).len() == 0);
        assert(first_occurrences(s) == first_occurrences(s.drop_last()).push(s.last()));
        assert(first_occurrences(s)[0] == s.last());
    }
}

pub(crate) fn contains_str(v: &Vec<String>, x: &str) -> (res: bool)
    ensures
        res == string_views(v@).contains(x@),
{
    let mut i: usize = 0;
    while i < v.len()
        invariant
            0 <= i <= v@.len(),
            forall|k: int| 0 <= k < i ==> v@[k]@ != x@,
        decreases v@.len() - i,
    {
        if str_eq(v[i].as_str(), x) {
            assert(string_views(v@)[i as int] == x@);
            return true;
        }
        i = i + 1;
    }
    proof {
        if string_views(v@).contains(x@) {
            let k = choose|k: int| 0 <= k < string_views(v@).len() && string_views(v@)[k] == x@;
            assert(v@[k]@ == x@);
        }
    }
    false
}

/// The items of `items` without repeats, each at its first position.
pub fn unique_in_order(items: &Vec<String>) -> (res: Vec<String>)
    ensures
        string_views(res@) == first_occurrences(string_views(items@)),
{
    let mut out: Vec<String> = Vec::new();
    let mut i: usize = 0;
    while i < items.len()
        invariant
            0 <= i <= items@.len(),
            string_views(out@) == first_occurrences(string_views(items@).take(i as int)),
        decreases items@.len() - i,
    {
        let ghost prefix = string_views(items@).take(i as int);
        let ghost next = string_views(items@).take(i + 1);
        assert(next.drop_last() =~= prefix);
        assert(next.last() == items@[i as int]@);
        proof {
            law_unique_keeps_every_item(prefix);
        }
        if !contains_str(&out, items[i].as_str()) {
            out.push(items[i].clone());
            assert(string_views(out@) =~= first_occurrences(prefix).push(items@[i as int]@));
        }
        i = i + 1;
    }
    assert(string_views(items@).take(items@.len() as int) =~= string_views(items@));
    out
}

/// The tickers of a comparison: without repeats, at least two of them.
pub fn comparison_tickers(normalized: &Vec<String>) -> (res: Result<Vec<String>, AppError>)
    ensures
        first_occurrences(string_views(normalized@)).len() < 2 ==> (res matches Err(e)
            && is_bad_request(e, "at least two unique tickers are required"@)),
        first_occurrences(string_views(normalized@)).len() >= 2 ==> (res matches Ok(t)
            && string_views(t@) == first_occurrences(string_views(normalized@))),
{
    let tickers = unique_in_order(normalized);
    if tickers.len() < 2 {
        return Err(AppError::bad_request("at least two unique tickers are required"));
    }
    Ok(tickers)
}

/// The tickers of a batch job: without repeats, at least one of them.
pub fn batch_tickers(normalized: &Vec<String>) -> (res: Result<Vec<String>, AppError>)
    ensures
        first_occurrences(string_views(normalized@)).len() == 0 ==> (res matches Err(e)
            && is_bad_request(e, "at least one unique ticker is required"@)),
        first_occurrences(string_views(normalized@)).len() > 0 ==> (res matches Ok(t)
            && string_views(t@) == first_occurrences(string_views(normalized@))),
{
    let tickers = unique_in_order(normalized);
    if tickers.len() == 0 {
        return Err(AppError::bad_request("at least one unique ticker is required"));
    }
    Ok(tickers)
}

/// Where the sort position of `ticker` goes when it is added to a watchlist
/// holding `existing`: after the last one, or nowhere when it is present.
pub fn new_ticker_sort_order(existing: &Vec<String>, ticker: &str) -> (res: Option<i64>)
    requires
        existing@.len() <= i64::MAX,
    ensures
        string_views(existing@).contains(ticker@) ==> res is None,
        !string_views(existing@).contains(ticker@) ==> res == Some(existing@.len() as i64),
{
    if contains_str(existing, ticker) {
        None
    } else {
        Some(existing.len() as i64)
    }
}

/// A ticker for a portfolio position: trimmed, upper-cased, not empty, and
/// made of ASCII letters, digits, `.` and `-` only.
pub open spec fn position_ticker_char(c: char) -> bool {
    ('a' <= c <= 'z') || ('A' <= c <= 'Z') || ('0' <= c <= '9') || c == '.' || c == '-'
}

/// The outcome of checking a position ticker typed as `raw`: the cleaned
/// ticker, or the message of the check it fails.
pub open spec fn position_ticker_check(raw: Seq<char>) -> Result<Seq<char>, Seq<char>> {
    let t = spec_uppercase(trim(raw));
    if t.len() == 0 {
        Err("ticker is required"@)
    } else if forall|i: int| 0 <= i < t.len() ==> position_ticker_char(#[trigger] t[i]) {
        Ok(t)
    } else {
        Err("ticker must contain only letters, numbers, '.' or '-'"@)
    }
}

/// A cleaned ticker that is not empty and is made only of ASCII letters,
/// ASCII digits, `.` and `-` is accepted as it is.
pub proof fn law_position_ticker_accepts_symbol_chars(raw: Seq<char>)
    requires
        spec_uppercase(trim(raw)).len() > 0,
        forall|i: int|
            0 <= i < spec_uppercase(trim(raw)).len() ==> {
                let c = #[trigger] spec_uppercase(trim(raw))[i];
                ||| ('a' <= c && c <= 'z')
                ||| ('A' <= c && c <= 'Z')
                ||| ('0' <= c && c <= '9')
                ||| c == '.'
                ||| c == '-'
            },
    ensures
        position_ticker_check(raw) == Ok::<Seq<char>, Seq<char>>(spec_uppercase(trim(raw))),
{
    let t = spec_uppercase(trim(raw));
    assert forall|i: int| 0 <= i < t.len() implies position_ticker_char(#[trigger] t[i]) by {
        let c = t[i];
        assert(('a' <= c && c <= 'z') || ('A' <= c && c <= 'Z') || ('0' <= c && c <= '9') || c
            == '.' || c == '-');
    }
}

/// A cleaned ticker holding any other character (a space, `/`, `_`, a
/// non-ASCII letter, ...) is refused.
pub proof fn law_position_ticker_refuses_other_chars(raw: Seq<char>, i: int)
    requires
        0 <= i < spec_uppercase(trim(raw)).len(),
        !('a' <= spec_uppercase(trim(raw))[i] && spec_uppercase(trim(raw))[i] <= 'z'),
        !('A' <= spec_uppercase(trim(raw))[i] && spec_uppercase(trim(raw))[i] <= 'Z'),
        !('0' <= spec_uppercase(trim(raw))[i] && spec_uppercase(trim(raw))[i] <= '9'),
        spec_uppercase(trim(raw))[i] != '.',
        spec_uppercase(trim(raw))[i] != '-',
    ensures
        position_ticker_check(raw) == Err::<Seq<char>, Seq<char>>(
            "ticker must contain only letters, numbers, '.' or '-'"@,
        ),
{
    assert(!position_ticker_char(spec_uppercase(trim(raw))[i]));
}

pub fn validate_position_ticker(raw: &str) -> (res: Result<String, AppError>)
    ensures
        res matches Ok(s) ==> position_ticker_check(raw@) == Ok::<Seq<char>, Seq<char>>(s@),
        res matches Err(e) ==> (position_ticker_check(raw@) matches Err(m) && is_bad_request(e, m)),
        ({
            let t = spec_uppercase(trim(raw@));
            &&& t.len() == 0 ==> (res matches Err(e) && is_bad_request(e, "ticker is required"@))
            &&& (t.len() > 0 && !(forall|i: int| 0 <= i < t.len() ==> position_ticker_char(#[trigger] t[i])))
                ==> (res matches Err(e) && is_bad_request(
                e,
                "ticker must contain only letters, numbers, '.' or '-'"@,
            ))
            &&& (t.len() > 0 && (forall|i: int| 0 <= i < t.len() ==> position_ticker_char(#[trigger] t[i])))
                ==> (res matches Ok(s) && s@ == t)
        }),
{
    let trimmed = trim_string(raw);
    let ticker = uppercase(trimmed.as_str());
    let cs = chars_of(ticker.as_str());
    if cs.len() == 0 {
        return Err(AppError::bad_request("ticker is required"));
    }
    let mut i: usize = 0;
    while i < cs.len()
        invariant
            0 <= i <= cs@.len(),
            cs@ == ticker@,
            ticker@ == spec_uppercase(trim(raw@)),
            forall|k: int| 0 <= k < i ==> position_ticker_char(#[trigger] cs@[k]),
        decreases cs@.len() - i,
    {
        let c = cs[i];
        if !(('a' <= c && c <= 'z') || ('A' <= c && c <= 'Z') || ('0' <= c && c <= '9') || c == '.'
            || c == '-') {
            assert(!position_ticker_char(cs@[i as int]));
            return Err(AppError::bad_request("ticker must contain only letters, numbers, '.' or '-'"));
        }
        i = i + 1;
    }
    Ok(ticker)
}

// ---------------------------------------------------------------------------
// Questions.
// ---------------------------------------------------------------------------

/// Where a run's question comes from.
pub enum QuestionSource {
    /// The caller's own question (trimmed).
    Custom(String),
    /// A stored run template, by id (trimmed).
    Template(String),
    /// The built-in default question.
    Default,
}

/// A given question wins over a template id, which wins over the default;
/// blank values count as absent.
pub fn choose_question_source(question: &Option<String>, template_id: &Option<String>) -> (res:
    QuestionSource)
    ensures
        nonblank(*question) matches Some(q) ==> (res matches QuestionSource::Custom(c) && c@ == q),
        nonblank(*question) is None ==> (nonblank(*template_id) matches Some(t) ==> (
        res matches QuestionSource::Template(id) && id@ == t)),
        nonblank(*question) is None && nonblank(*template_id) is None ==> res
            is Default,
{
    match trimmed_nonblank(question) {
        Some(q) => QuestionSource::Custom(q),
        None => match trimmed_nonblank(template_id) {
            Some(t) => QuestionSource::Template(t),
            None => QuestionSource::Default,
        },
    }
}

/// The question of a comparison when neither a question nor a template is given.
pub fn default_comparison_question() -> (res: String)
    ensures
        res@ == "Compare these stocks across valuation, growth, and risk factors"@,
{
    owned("Compare these stocks across valuation, growth, and risk factors")
}

/// A scanner opportunity can be promoted to a run only once.
pub fn check_promotable(promoted_to_run_id: &Option<String>) -> (res: Result<(), AppError>)
    ensures
        promoted_to_run_id is Some ==> (res matches Err(e) && is_bad_request(
            e,
            "opportunity already promoted"@,
        )),
        promoted_to_run_id is None ==> res is Ok,
{
    if promoted_to_run_id.is_some() {
        return Err(AppError::bad_request("opportunity already promoted"));
    }
    Ok(())
}

/// The question of a run promoted from a scanner opportunity on `ticker`.
pub fn promotion_question(requested: Option<String>, ticker: &str) -> (res: String)
    ensures
        requested matches Some(q) ==> res@ == q@,
        requested is None ==> res@ == "What is the current bull and bear case for "@ + ticker@
            + "?"@,
{
    match requested {
        Some(q) => q,
        None => {
            let mut out: Vec<char> = Vec::new();
            push_str_chars(&mut out, "What is the current bull and bear case for ");
            push_str_chars(&mut out, ticker);
            push_str_chars(&mut out, "?");
            string_from_chars(&out)
        },
    }
}

// ---------------------------------------------------------------------------
// Run status.
// ---------------------------------------------------------------------------

/// The run status words are pairwise different.
proof fn lemma_status_words_distinct()
    ensures
        "queued"@ != "running"@,
        "queued"@ != "completed"@,
        "queued"@ != "failed"@,
        "queued"@ != "cancelled"@,
        "running"@ != "completed"@,
        "running"@ != "failed"@,
        "running"@ != "cancelled"@,
        "completed"@ != "failed"@,
        "completed"@ != "cancelled"@,
        "failed"@ != "cancelled"@,
{
    reveal_strlit("queued");
    reveal_strlit("running");
    reveal_strlit("completed");
    reveal_strlit("failed");
    reveal_strlit("cancelled");
    assert("queued"@[0] != "failed"@[0]);
    assert("completed"@[1] != "cancelled"@[1]);
}

/// A run page offers cancelling while the run is queued or running.
pub fn can_cancel(status: &str) -> (res: bool)
    ensures
        res == (status@ == "queued"@ || status@ == "running"@),
{
    str_eq(status, "queued") || str_eq(status, "running")
}

/// A run page offers retrying once the run failed or was cancelled.
pub fn can_retry(status: &str) -> (res: bool)
    ensures
        res == (status@ == "failed"@ || status@ == "cancelled"@),
{
    str_eq(status, "failed") || str_eq(status, "cancelled")
}

/// What cancelling a run in `status` does: refused for completed or failed
/// runs, nothing for an already cancelled run (`Ok(false)`), otherwise the
/// run is marked cancelled (`Ok(true)`).
pub fn cancel_decision(status: &str) -> (res: Result<bool, AppError>)
    ensures
        (status@ == "completed"@ || status@ == "failed"@) ==> (res matches Err(e)
            && is_bad_request(e, "completed or failed runs cannot be cancelled"@)),
        status@ == "cancelled"@ ==> res == Ok::<bool, AppError>(false),
        !(status@ == "completed"@ || status@ == "failed"@ || status@ == "cancelled"@) ==> res
            == Ok::<bool, AppError>(true),
{
    proof {
        lemma_status_words_distinct();
    }
    if str_eq(status, "completed") || str_eq(status, "failed") {
        return Err(AppError::bad_request("completed or failed runs cannot be cancelled"));
    }
    if str_eq(status, "cancelled") {
        return Ok(false);
    }
    Ok(true)
}

/// Only failed or cancelled runs can be retried.
pub fn retry_check(status: &str) -> (res: Result<(), AppError>)
    ensures
        (status@ == "failed"@ || status@ == "cancelled"@) ==> res is Ok,
        !(status@ == "failed"@ || status@ == "cancelled"@) ==> (res matches Err(e)
            && is_bad_request(e, "only failed or cancelled runs can be retried"@)),
{
    if str_eq(status, "failed") || str_eq(status, "cancelled") {
        Ok(())
    } else {
        Err(AppError::bad_request("only failed or cancelled runs can be retried"))
    }
}

/// The status shown for a member run: its own, or `pending` while it does
/// not exist yet.
pub fn display_status(run_status: &Option<String>) -> (res: String)
    ensures
        run_status matches Some(s) ==> res@ == s@,
        run_status is None ==> res@ == "pending"@,
{
    match run_status {
        Some(s) => s.clone(),
        None => owned("pending"),
    }
}

/// A batch status that no longer changes.
pub open spec fn batch_run_settled(s: Seq<char>) -> bool {
    s == "completed"@ || s == "failed"@ || s == "failed_partial"@ || s == "cancelled"@
}

/// A comparison member status that no longer changes.
pub open spec fn comparison_run_settled(s: Seq<char>) -> bool {
    s == "completed"@ || s == "failed"@ || s == "cancelled"@
}

/// Some run of a batch, by status, is still in progress.
pub open spec fn batch_pending(statuses: Seq<String>) -> bool {
    exists|i: int| 0 <= i < statuses.len() && !batch_run_settled(#[trigger] statuses[i]@)
}

/// Some run of a comparison, by status, is still in progress.
pub open spec fn comparison_pending(statuses: Seq<String>) -> bool {
    exists|i: int| 0 <= i < statuses.len() && !comparison_run_settled(#[trigger] statuses[i]@)
}

/// A batch whose runs all completed, failed (wholly or in part) or were
/// cancelled has nothing in progress.
pub proof fn law_settled_batch_is_not_pending(statuses: Seq<String>)
    requires
        forall|i: int|
            0 <= i < statuses.len() ==> {
                let s = #[trigger] statuses[i]@;
                s == "completed"@ || s == "failed"@ || s == "failed_partial"@ || s == "cancelled"@
            },
    ensures
        !batch_pending(statuses),
{
    assert forall|i: int| 0 <= i < statuses.len() implies batch_run_settled(#[trigger] statuses[i]@) by {
        let s = statuses[i]@;
        assert(s == "completed"@ || s == "failed"@ || s == "failed_partial"@ || s == "cancelled"@);
    }
}

/// A batch with a run in any other status (queued, running, ...) is still
/// in progress.
pub proof fn law_unsettled_run_keeps_batch_pending(statuses: Seq<String>, i: int)
    requires
        0 <= i < statuses.len(),
        statuses[i]@ != "completed"@,
        statuses[i]@ != "failed"@,
        statuses[i]@ != "failed_partial"@,
        statuses[i]@ != "cancelled"@,
    ensures
        batch_pending(statuses),
{
    assert(!batch_run_settled(statuses[i]@));
}

/// A comparison whose member runs all completed, failed or were cancelled
/// has nothing in progress.
pub proof fn law_settled_comparison_is_not_pending(statuses: Seq<String>)
    requires
        forall|i: int|
            0 <= i < statuses.len() ==> {
                let s = #[trigger] statuses[i]@;
                s == "completed"@ || s == "failed"@ || s == "cancelled"@
            },
    ensures
        !comparison_pending(statuses),
{
    assert forall|i: int| 0 <= i < statuses.len() implies comparison_run_settled(
        #[trigger] statuses[i]@,
    ) by {
        let s = statuses[i]@;
        assert(s == "completed"@ || s == "failed"@ || s == "cancelled"@);
    }
}

/// A comparison with a member run in any other status (queued, running,
/// ...) is still in progress.
pub proof fn law_unsettled_run_keeps_comparison_pending(statuses: Seq<String>, i: int)
    requires
        0 <= i < statuses.len(),
        statuses[i]@ != "completed"@,
        statuses[i]@ != "failed"@,
        statuses[i]@ != "cancelled"@,
    ensures
        comparison_pending(statuses),
{
    assert(!comparison_run_settled(statuses[i]@));
}

/// Whether any run of a batch is still in progress.
pub fn batch_has_pending_runs(statuses: &Vec<String>) -> (res: bool)
    ensures
        res == exists|i: int| 0 <= i < statuses@.len() && !batch_run_settled(#[trigger] statuses@[i]@),
        res == batch_pending(statuses@),
{
    let mut i: usize = 0;
    while i < statuses.len()
        invariant
            0 <= i <= statuses@.len(),
            forall|k: int| 0 <= k < i ==> batch_run_settled(#[trigger] statuses@[k]@),
        decreases statuses@.len() - i,
    {
        let s = statuses[i].as_str();
        if !(str_eq(s, "completed") || str_eq(s, "failed") || str_eq(s, "failed_partial") || str_eq(
            s,
            "cancelled",
        )) {
            return true;
        }
        i = i + 1;
    }
    false
}

/// Whether any run of a comparison is still in progress.
pub fn comparison_has_pending_runs(statuses: &Vec<String>) -> (res: bool)
    ensures
        res == exists|i: int|
            0 <= i < statuses@.len() && !comparison_run_settled(#[trigger] statuses@[i]@),
        res == comparison_pending(statuses@),
{
    let mut i: usize = 0;
    while i < statuses.len()
        invariant
            0 <= i <= statuses@.len(),
            forall|k: int| 0 <= k < i ==> comparison_run_settled(#[trigger] statuses@[k]@),
        decreases statuses@.len() - i,
    {
        let s = statuses[i].as_str();
        if !(str_eq(s, "completed") || str_eq(s, "failed") || str_eq(s, "cancelled")) {
            return true;
        }
        i = i + 1;
    }
    false
}

/// Whether the latest scan (if any) is still queued or running.
pub fn scan_is_running(has_latest_scan_run: bool, status: &str) -> (res: bool)
    ensures
        res == (has_latest_scan_run && (status@ == "running"@ || status@ == "queued"@)),
{
    has_latest_scan_run && (str_eq(status, "running") || str_eq(status, "queued"))
}

// ---------------------------------------------------------------------------
// Watchlists and their refresh schedule.
// ---------------------------------------------------------------------------

/// The refresh interval of a watchlist that has no schedule yet (one week).
pub const DEFAULT_REFRESH_INTERVAL_HOURS: i64 = 168;

pub fn validate_schedule_interval(interval_hours: i64) -> (res: Result<(), AppError>)
    ensures
        interval_hours < 1 ==> (res matches Err(e) && is_bad_request(
            e,
            "interval must be at least 1 hour"@,
        )),
        interval_hours >= 1 ==> res is Ok,
{
    if interval_hours < 1 {
        return Err(AppError::bad_request("interval must be at least 1 hour"));
    }
    Ok(())
}

/// Which watchlist a dashboard page shows: the one whose id is requested,
/// else the first; none when there are no watchlists.
pub fn select_watchlist_index(ids: &Vec<String>, requested: &Option<String>) -> (res: Option<
    usize,
>)
    ensures
        ids@.len() == 0 ==> res is None,
        ids@.len() > 0 ==> (res matches Some(i) && i < ids@.len()),
        ids@.len() > 0 && (requested matches Some(r) && string_views(ids@).contains(r@)) ==> (
        res matches Some(i) && ids@[i as int]@ == requested->0@ && forall|k: int|
            0 <= k < i ==> ids@[k]@ != requested->0@),
        ids@.len() > 0 && !(requested matches Some(r) && string_views(ids@).contains(r@)) ==> res
            == Some(0usize),
{
    if ids.len() == 0 {
        return None;
    }
    match requested {
        Some(r) => {
            let mut i: usize = 0;
            while i < ids.len()
                invariant
                    0 <= i <= ids@.len(),
                    ids@.len() > 0,
                    requested is Some,
                    requested->0@ == r@,
                    forall|k: int| 0 <= k < i ==> ids@[k]@ != r@,
                decreases ids@.len() - i,
            {
                if str_eq(ids[i].as_str(), r.as_str()) {
                    assert(string_views(ids@)[i as int] == r@);
                    return Some(i);
                }
                i = i + 1;
            }
            proof {
                if string_views(ids@).contains(r@) {
                    let k = choose|k: int| 0 <= k < ids@.len() && string_views(ids@)[k] == r@;
                    assert(ids@[k]@ == r@);
                }
            }
            Some(0)
        },
        None => Some(0),
    }
}

/// Which watchlist the dashboard API reports on: the requested id (trimmed)
/// when given, else the first watchlist; a bad request when there is none.
pub fn resolve_dashboard_watchlist(requested: &Option<String>, first_id: &Option<String>) -> (res:
    Result<String, AppError>)
    ensures
        nonblank(*requested) matches Some(w) ==> (res matches Ok(s) && s@ == w),
        nonblank(*requested) is None ==> (first_id matches Some(f) ==> (res matches Ok(s) && s@
            == f@)),
        nonblank(*requested) is None && first_id is None ==> (res matches Err(e)
            && is_bad_request(e, "no watchlists exist yet"@)),
{
    match trimmed_nonblank(requested) {
        Some(w) => Ok(w),
        None => match first_id {
            Some(f) => Ok(f.clone()),
            None => Err(AppError::bad_request("no watchlists exist yet")),
        },
    }
}

/// The runs a page offers to cancel are the queued and running ones, and
/// cancelling such a run marks it cancelled; the runs a page offers to retry
/// are exactly the runs that may be retried, and none of them can be
/// cancelled again.
pub proof fn law_offered_actions_are_allowed(status: Seq<char>)
    ensures
        (status == "queued"@ || status == "running"@) ==> !(status == "completed"@ || status
            == "failed"@ || status == "cancelled"@),
        (status == "failed"@ || status == "cancelled"@) ==> !(status == "queued"@ || status
            == "running"@),
{
    lemma_status_words_distinct();
}

// ---------------------------------------------------------------------------
// Batch and comparison pages.
// ---------------------------------------------------------------------------

/// What a batch or comparison page reads of a member run.
pub struct MemberRun {
    pub id: String,
    pub status: String,
    pub summary: Option<String>,
    pub final_memo_html: Option<String>,
}

/// One row of a batch or comparison page.
pub struct MemberRunView {
    pub run_id: String,
    pub has_run: bool,
    pub ticker: String,
    pub status: String,
    pub has_summary: bool,
    pub summary: String,
    pub has_final_memo: bool,
    pub final_memo_html: String,
}

/// The text of an optional field, empty when it is absent.
pub open spec fn text_or_empty(o: Option<String>) -> Seq<char> {
    match o {
        Some(s) => s@,
        None => seq![],
    }
}

fn string_or_empty(o: &Option<String>) -> (res: String)
    ensures
        res@ == text_or_empty(*o),
{
    match o {
        Some(s) => s.clone(),
        None => String::new(),
    }
}

/// The row of a member run on `ticker`: its id, status, summary and memo
/// when the run exists, empty texts and the status `pending` when it does
/// not; the `has_` flags say whether each text is non-empty.
pub fn member_run_view(ticker: &str, run: &Option<MemberRun>) -> (res: MemberRunView)
    ensures
        res.ticker@ == ticker@,
        res.has_run == run is Some,
        run matches Some(r) ==> {
            &&& res.run_id@ == r.id@
            &&& res.status@ == r.status@
            &&& res.summary@ == text_or_empty(r.summary)
            &&& res.final_memo_html@ == text_or_empty(r.final_memo_html)
        },
        run is None ==> res.run_id@.len() == 0 && res.status@ == "pending"@ && res.summary@.len()
            == 0 && res.final_memo_html@.len() == 0,
        res.has_summary == (res.summary@.len() > 0),
        res.has_final_memo == (res.final_memo_html@.len() > 0),
{
    let (run_id, status, summary, final_memo_html) = match run {
        Some(r) => (
            r.id.clone(),
            r.status.clone(),
            string_or_empty(&r.summary),
            string_or_empty(&r.final_memo_html),
        ),
        None => (String::new(), owned("pending"), String::new(), String::new()),
    };
    let has_summary = !summary.as_str().is_empty();
    let has_final_memo = !final_memo_html.as_str().is_empty();
    MemberRunView {
        run_id,
        has_run: run.is_some(),
        ticker: owned(ticker),
        status,
        has_summary,
        summary,
        has_final_memo,
        final_memo_html,
    }
}

// ---------------------------------------------------------------------------
// Bookmarks page.
// ---------------------------------------------------------------------------

/// Positions of the bookmarks of each entity type, in listing order;
/// bookmarks of any other type are left out.
pub struct BookmarkGroups {
    pub runs: Vec<usize>,
    pub comparisons: Vec<usize>,
    pub sources: Vec<usize>,
}

/// `idx` lists, in increasing order, exactly the positions of `types` that
/// hold `wanted`.
pub open spec fn positions_of(idx: Seq<usize>, types: Seq<Seq<char>>, wanted: Seq<char>) -> bool {
    &&& forall|a: int, b: int| 0 <= a < b < idx.len() ==> idx[a] < idx[b]
    &&& forall|a: int| 0 <= a < idx.len() ==> #[trigger] idx[a] < types.len() && types[idx[a] as int] == wanted
    &&& forall|i: int| 0 <= i < types.len() && types[i] == wanted ==> #[trigger] idx.contains(i as usize)
}

proof fn lemma_entity_words_distinct()
    ensures
        "run"@ != "comparison"@,
        "run"@ != "source"@,
        "comparison"@ != "source"@,
{
    reveal_strlit("run");
    reveal_strlit("comparison");
    reveal_strlit("source");
    assert("run"@.len() == 3);
    assert("comparison"@.len() == 10);
    assert("source"@.len() == 6);
}

pub fn group_bookmarks(entity_types: &Vec<String>) -> (res: BookmarkGroups)
    ensures
        positions_of(res.runs@, string_views(entity_types@), "run"@),
        positions_of(res.comparisons@, string_views(entity_types@), "comparison"@),
        positions_of(res.sources@, string_views(entity_types@), "source"@),
{
    let ghost types = string_views(entity_types@);
    proof {
        lemma_entity_words_distinct();
    }
    let mut runs: Vec<usize> = Vec::new();
    let mut comparisons: Vec<usize> = Vec::new();
    let mut sources: Vec<usize> = Vec::new();
    let mut i: usize = 0;
    while i < entity_types.len()
        invariant
            0 <= i <= entity_types@.len(),
            types == string_views(entity_types@),
            positions_of(runs@, types.take(i as int), "run"@),
            positions_of(comparisons@, types.take(i as int), "comparison"@),
            positions_of(sources@, types.take(i as int), "source"@),
            "run"@ != "comparison"@,
            "run"@ != "source"@,
            "comparison"@ != "source"@,
        decreases entity_types@.len() - i,
    {
        let t = entity_types[i].as_str();
        assert(types[i as int] == t@);
        let ghost next = types.take(i + 1);
        assert forall|k: int| 0 <= k < i implies next[k] == types.take(i as int)[k] by {}
        assert(next[i as int] == t@);
        if str_eq(t, "run") {
            runs.push(i);
        } else if str_eq(t, "comparison") {
            comparisons.push(i);
        } else if str_eq(t, "source") {
            sources.push(i);
        }
        proof {
            assert forall|w: Seq<char>, v: Seq<usize>|
                positions_of(v, types.take(i as int), w) && next[i as int] != w implies positions_of(v, next, w) by {
                assert forall|k: int| 0 <= k < next.len() && next[k] == w implies #[trigger] v.contains(k as usize) by {
                    assert(types.take(i as int)[k] == next[k]);
                }
            }
            assert forall|w: Seq<char>, v: Seq<usize>|
                positions_of(v, types.take(i as int), w) && next[i as int] == w implies positions_of(v.push(i), next, w) by {
                let v2 = v.push(i);
                assert forall|a: int| 0 <= a < v2.len() implies #[trigger] v2[a] < next.len() && next[v2[a] as int] == w by {
                    if a < v.len() {
                        assert(v2[a] == v[a]);
                        assert(types.take(i as int)[v[a] as int] == next[v[a] as int]);
                    }
                }
                assert forall|k: int| 0 <= k < next.len() && next[k] == w implies #[trigger] v2.contains(k as usize) by {
                    if k < i {
                        assert(types.take(i as int)[k] == next[k]);
                        assert(v.contains(k as usize));
                        let j = choose|j: int| 0 <= j < v.len() && v[j] == k as usize;
                        assert(v2[j] == k as usize);
                    } else {
                        assert(v2[v.len() as int] == i);
                    }
                }
            }
        }
        i = i + 1;
    }
    assert(types.take(entity_types@.len() as int) =~= types);
    BookmarkGroups { runs, comparisons, sources }
}

/// The alert rules a watchlist gets when it has none yet, in the order they
/// are created: a score drop (with a threshold of 0.8, which the store
/// writes), stale evidence, and a downgraded decision.
pub open spec fn default_alert_rule_types() -> Seq<Seq<char>> {
    seq!["score_drop"@, "freshness_stale"@, "decision_downgrade"@]
}

/// The alert rule types to create for a watchlist that holds
/// `existing_rules` rules: the defaults when it has none, otherwise none.
pub fn alert_rules_to_create(existing_rules: usize) -> (res: Vec<&'static str>)
    ensures
        existing_rules > 0 ==> res@.len() == 0,
        existing_rules == 0 ==> res@.map_values(|t: &'static str| t@) == default_alert_rule_types(),
{
    let mut v: Vec<&'static str> = Vec::new();
    if existing_rules == 0 {
        v.push("score_drop");
        v.push("freshness_stale");
        v.push("decision_downgrade");
        assert(v@.map_values(|t: &'static str| t@) =~= default_alert_rule_types());
    }
    v
}

} // verus!
