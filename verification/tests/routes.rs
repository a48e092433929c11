use autothesis::error::AppError;
use autothesis::models::{
    AlertQuery, CreateBookmarkRequest, CreateRunTemplateRequest, CreateSourceAnnotationRequest,
    DeleteBookmarkQuery, DeleteSourceAnnotationQuery, UpdateRunTemplateRequest,
};
use autothesis::routes::{
    batch_has_pending_runs, batch_tickers, can_cancel, can_retry, cancel_decision,
    alert_rules_to_create, check_promotable, choose_question_source, group_bookmarks, member_run_view, MemberRun, comparison_has_pending_runs, comparison_tickers,
    default_comparison_question, display_status, new_ticker_sort_order,
    entity_type_from_lowercased, normalize_bookmark_entity_type, promotion_question, require_nonblank,
    resolve_dashboard_watchlist, retry_check, scan_is_running, select_watchlist_index,
    unique_in_order, validate_alert_query, validate_annotation_delete, validate_bookmark,
    validate_bookmark_delete, validate_create_run_template, validate_position_ticker,
    validate_schedule_interval, validate_source_annotation, validate_update_run_template,
    QuestionSource, DEFAULT_REFRESH_INTERVAL_HOURS,
};

fn s(x: &str) -> String {
    x.to_string()
}

fn bad(r: AppError) -> String {
    match r {
        AppError::BadRequest(m) => m,
        _ => panic!("expected a bad request"),
    }
}

#[test]
fn bookmark_entity_types_are_normalized() {
    assert_eq!(normalize_bookmark_entity_type("  RUN ").ok(), Some("run"));
    assert_eq!(normalize_bookmark_entity_type("Comparison").ok(), Some("comparison"));
    assert_eq!(normalize_bookmark_entity_type("source").ok(), Some("source"));
    assert_eq!(
        bad(normalize_bookmark_entity_type("batch").err().unwrap()),
        "entity_type must be run, comparison, or source"
    );
}

#[test]
fn bookmarks_are_validated_in_order() {
    let mut req = CreateBookmarkRequest {
        entity_type: s(" Run"),
        entity_id: s(" r1 "),
        title: s(" T "),
        note: Some(s("   ")),
        target_path: s("/runs/r1"),
    };
    let b = validate_bookmark(&req).ok().unwrap();
    assert_eq!(b.entity_type, "run");
    assert_eq!(b.entity_id, "r1");
    assert_eq!(b.title, "T");
    assert_eq!(b.note, None);
    assert_eq!(b.target_path, "/runs/r1");
    req.note = Some(s(" keep "));
    assert_eq!(validate_bookmark(&req).ok().unwrap().note.as_deref(), Some("keep"));
    req.title = s(" ");
    req.target_path = s("");
    assert_eq!(bad(validate_bookmark(&req).err().unwrap()), "title is required");
    req.entity_id = s("");
    assert_eq!(bad(validate_bookmark(&req).err().unwrap()), "entity_id is required");
    req.entity_type = s("x");
    assert_eq!(
        bad(validate_bookmark(&req).err().unwrap()),
        "entity_type must be run, comparison, or source"
    );
    req.entity_type = s("run");
    req.entity_id = s("a");
    req.title = s("b");
    assert_eq!(bad(validate_bookmark(&req).err().unwrap()), "target_path is required");

    let k = validate_bookmark_delete(&DeleteBookmarkQuery { entity_type: s("SOURCE"), entity_id: s(" s9") })
        .ok()
        .unwrap();
    assert_eq!((k.entity_type.as_str(), k.entity_id.as_str()), ("source", "s9"));
    assert_eq!(
        bad(validate_bookmark_delete(&DeleteBookmarkQuery { entity_type: s("run"), entity_id: s(" ") })
            .err()
            .unwrap()),
        "entity_id is required"
    );
}

#[test]
fn annotations_are_validated() {
    let mut req = CreateSourceAnnotationRequest {
        run_id: s("r"),
        selected_text: s(" quote "),
        annotation_markdown: s("*note*"),
        tag: Some(s(" bull ")),
    };
    let a = validate_source_annotation(&req).ok().unwrap();
    assert_eq!(a.selected_text, "quote");
    assert_eq!(a.tag.as_deref(), Some("bull"));
    req.annotation_markdown = s("\n");
    assert_eq!(bad(validate_source_annotation(&req).err().unwrap()), "annotation_markdown is required");
    req.selected_text = s("");
    assert_eq!(bad(validate_source_annotation(&req).err().unwrap()), "selected_text is required");
    req.run_id = s(" ");
    assert_eq!(bad(validate_source_annotation(&req).err().unwrap()), "run_id is required");
    assert_eq!(
        bad(validate_annotation_delete(&DeleteSourceAnnotationQuery { annotation_id: s(" ") }).err().unwrap()),
        "annotation_id is required"
    );
    assert_eq!(
        validate_annotation_delete(&DeleteSourceAnnotationQuery { annotation_id: s(" a1 ") }).ok(),
        Some(s("a1"))
    );
}

#[test]
fn templates_and_alert_queries_are_validated() {
    let t = validate_create_run_template(&CreateRunTemplateRequest {
        name: s(" Deep dive "),
        question_template: s(" What about {ticker}? "),
        description: Some(s("")),
    })
    .ok()
    .unwrap();
    assert_eq!(t.name, "Deep dive");
    assert_eq!(t.question_template, "What about {ticker}?");
    assert_eq!(t.description, None);
    assert_eq!(
        bad(validate_update_run_template(&UpdateRunTemplateRequest {
            name: s("n"),
            question_template: s(" "),
            description: None,
        })
        .err()
        .unwrap()),
        "question_template is required"
    );
    assert_eq!(
        bad(validate_create_run_template(&CreateRunTemplateRequest {
            name: s(""),
            question_template: s(""),
            description: None,
        })
        .err()
        .unwrap()),
        "template name is required"
    );
    let (w, st) = validate_alert_query(&AlertQuery { watchlist_id: s(" w "), status: Some(s(" active ")) })
        .ok()
        .unwrap();
    assert_eq!((w.as_str(), st.as_deref()), ("w", Some("active")));
    assert_eq!(
        bad(validate_alert_query(&AlertQuery { watchlist_id: s(""), status: None }).err().unwrap()),
        "watchlist_id is required"
    );
    assert_eq!(bad(require_nonblank("  ", "watchlist name is required").err().unwrap()), "watchlist name is required");
}

#[test]
fn tickers_keep_first_occurrences() {
    let v = vec![s("AAPL"), s("MSFT"), s("AAPL"), s("NVDA"), s("MSFT")];
    assert_eq!(unique_in_order(&v), vec![s("AAPL"), s("MSFT"), s("NVDA")]);
    assert_eq!(unique_in_order(&unique_in_order(&v)), unique_in_order(&v));
    assert_eq!(comparison_tickers(&v).ok().unwrap().len(), 3);
    assert_eq!(
        bad(comparison_tickers(&vec![s("A"), s("A")]).err().unwrap()),
        "at least two unique tickers are required"
    );
    assert_eq!(bad(batch_tickers(&vec![]).err().unwrap()), "at least one unique ticker is required");
    assert_eq!(batch_tickers(&vec![s("A"), s("A")]).ok(), Some(vec![s("A")]));
}

#[test]
fn sort_orders_and_position_tickers() {
    let existing = vec![s("AAPL"), s("MSFT")];
    assert_eq!(new_ticker_sort_order(&existing, "NVDA"), Some(2));
    assert_eq!(new_ticker_sort_order(&existing, "AAPL"), None);
    assert_eq!(validate_position_ticker("  brk.b ").ok(), Some(s("BRK.B")));
    assert_eq!(bad(validate_position_ticker("   ").err().unwrap()), "ticker is required");
    assert_eq!(
        bad(validate_position_ticker("AB C").err().unwrap()),
        "ticker must contain only letters, numbers, '.' or '-'"
    );
}

#[test]
fn questions_come_from_the_first_given_source() {
    assert!(matches!(
        choose_question_source(&Some(s("  Why? ")), &Some(s("t1"))),
        QuestionSource::Custom(q) if q == "Why?"
    ));
    assert!(matches!(
        choose_question_source(&Some(s("  ")), &Some(s(" t1 "))),
        QuestionSource::Template(t) if t == "t1"
    ));
    assert!(matches!(choose_question_source(&None, &Some(s(""))), QuestionSource::Default));
    assert_eq!(
        default_comparison_question(),
        "Compare these stocks across valuation, growth, and risk factors"
    );
    assert_eq!(
        promotion_question(None, "TSLA"),
        "What is the current bull and bear case for TSLA?"
    );
    assert_eq!(promotion_question(Some(s("Q")), "TSLA"), "Q");
    assert!(check_promotable(&None).is_ok());
    assert_eq!(bad(check_promotable(&Some(s("r"))).err().unwrap()), "opportunity already promoted");
}

#[test]
fn run_status_decisions() {
    assert!(can_cancel("queued") && can_cancel("running") && !can_cancel("failed"));
    assert!(can_retry("failed") && can_retry("cancelled") && !can_retry("running"));
    assert_eq!(
        bad(cancel_decision("completed").err().unwrap()),
        "completed or failed runs cannot be cancelled"
    );
    assert_eq!(cancel_decision("cancelled").ok(), Some(false));
    assert_eq!(cancel_decision("running").ok(), Some(true));
    assert!(retry_check("failed").is_ok());
    assert_eq!(bad(retry_check("queued").err().unwrap()), "only failed or cancelled runs can be retried");
    assert_eq!(display_status(&None), "pending");
    assert_eq!(display_status(&Some(s("running"))), "running");
    assert!(!batch_has_pending_runs(&vec![s("completed"), s("failed_partial")]));
    assert!(batch_has_pending_runs(&vec![s("completed"), s("pending")]));
    assert!(comparison_has_pending_runs(&vec![s("failed_partial")]));
    assert!(!comparison_has_pending_runs(&vec![]));
    assert!(scan_is_running(true, "queued"));
    assert!(!scan_is_running(false, "running"));
}

#[test]
fn watchlist_choices() {
    assert_eq!(DEFAULT_REFRESH_INTERVAL_HOURS, 168);
    assert_eq!(bad(validate_schedule_interval(0).err().unwrap()), "interval must be at least 1 hour");
    assert!(validate_schedule_interval(1).is_ok());
    let ids = vec![s("w1"), s("w2")];
    assert_eq!(select_watchlist_index(&ids, &Some(s("w2"))), Some(1));
    assert_eq!(select_watchlist_index(&ids, &Some(s("zz"))), Some(0));
    assert_eq!(select_watchlist_index(&ids, &None), Some(0));
    assert_eq!(select_watchlist_index(&vec![], &Some(s("w1"))), None);
    assert_eq!(resolve_dashboard_watchlist(&Some(s(" w9 ")), &None).ok(), Some(s("w9")));
    assert_eq!(resolve_dashboard_watchlist(&Some(s(" ")), &Some(s("w1"))).ok(), Some(s("w1")));
    assert_eq!(
        bad(resolve_dashboard_watchlist(&None, &None).err().unwrap()),
        "no watchlists exist yet"
    );
}

#[test]
fn member_rows_show_pending_or_the_run() {
    let none = member_run_view("AAPL", &None);
    assert_eq!(none.ticker, "AAPL");
    assert!(!none.has_run);
    assert_eq!(none.status, "pending");
    assert_eq!(none.run_id, "");
    assert!(!none.has_summary && !none.has_final_memo);

    let run = MemberRun {
        id: s("run-1"),
        status: s("completed"),
        summary: Some(s("Strong quarter")),
        final_memo_html: None,
    };
    let row = member_run_view("MSFT", &Some(run));
    assert!(row.has_run);
    assert_eq!(row.run_id, "run-1");
    assert_eq!(row.status, "completed");
    assert!(row.has_summary);
    assert_eq!(row.summary, "Strong quarter");
    assert!(!row.has_final_memo);
    assert_eq!(row.final_memo_html, "");
}

#[test]
fn bookmarks_are_grouped_by_entity_type() {
    let types = vec![s("run"), s("source"), s("comparison"), s("run"), s("other")];
    let g = group_bookmarks(&types);
    assert_eq!(g.runs, vec![0, 3]);
    assert_eq!(g.comparisons, vec![2]);
    assert_eq!(g.sources, vec![1]);
    let empty = group_bookmarks(&vec![]);
    assert!(empty.runs.is_empty() && empty.comparisons.is_empty() && empty.sources.is_empty());
}

#[test]
fn entity_types_are_read_from_lowercased_text() {
    assert_eq!(entity_type_from_lowercased("run").ok(), Some("run"));
    assert_eq!(entity_type_from_lowercased("comparison").ok(), Some("comparison"));
    assert_eq!(entity_type_from_lowercased("source").ok(), Some("source"));
    assert_eq!(
        bad(entity_type_from_lowercased("RUN").unwrap_err()),
        "entity_type must be run, comparison, or source"
    );
}

#[test]
fn default_alert_rules_are_created_only_for_watchlists_without_rules() {
    assert_eq!(
        alert_rules_to_create(0),
        vec!["score_drop", "freshness_stale", "decision_downgrade"]
    );
    assert!(alert_rules_to_create(1).is_empty());
    assert!(alert_rules_to_create(3).is_empty());
}
