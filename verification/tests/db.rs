use autothesis::time::Timestamp;
use autothesis::db::{
    next_placeholder, normalize_database_url, pending_migrations, pool_max_size, sort_migration_names,
    sql_placeholders,
    ticker_universe_query,
    run_from_row, run_record_from_parts, RowError, RunRow, TimestampColumn,
};

#[test]
fn database_urls_name_paths() {
    assert_eq!(normalize_database_url("sqlite::memory:"), ":memory:");
    assert_eq!(normalize_database_url(":memory:"), ":memory:");
    assert_eq!(normalize_database_url("sqlite://autothesis.db"), "autothesis.db");
    assert_eq!(normalize_database_url("sqlite:data/x.db"), "data/x.db");
    assert_eq!(normalize_database_url("/tmp/plain.db"), "/tmp/plain.db");
}

#[test]
fn pool_size_depends_on_memory() {
    assert_eq!(pool_max_size(":memory:"), 1);
    assert_eq!(pool_max_size("autothesis.db"), 8);
}

#[test]
fn placeholders_are_numbered() {
    assert_eq!(sql_placeholders(0), "");
    assert_eq!(sql_placeholders(1), "?1");
    assert_eq!(sql_placeholders(3), "?1,?2,?3");
    assert_eq!(sql_placeholders(11).len(), "?1,?2,?3,?4,?5,?6,?7,?8,?9,?10,?11".len());
    assert_eq!(next_placeholder(3), "?4");
}

#[test]
fn ticker_universe_query_adds_filters() {
    assert_eq!(
        ticker_universe_query(true, false, false, false),
        "SELECT * FROM ticker_universe WHERE 1=1 AND is_active = 1 ORDER BY ticker ASC"
    );
    assert_eq!(
        ticker_universe_query(false, true, true, true),
        "SELECT * FROM ticker_universe WHERE 1=1 AND sector = ? AND market_cap_billion >= ? AND market_cap_billion <= ? ORDER BY ticker ASC"
    );
}

#[test]
fn migrations_run_in_name_order() {
    let names = vec![
        "0003_sources.sql".to_string(),
        "0001_init.sql".to_string(),
        "0002_runs.sql".to_string(),
        "0001_init.sql".to_string(),
    ];
    let sorted = sort_migration_names(names);
    assert_eq!(
        sorted,
        vec![
            "0001_init.sql".to_string(),
            "0001_init.sql".to_string(),
            "0002_runs.sql".to_string(),
            "0003_sources.sql".to_string(),
        ]
    );
    assert_eq!(sort_migration_names(vec![]), Vec::<String>::new());
    assert_eq!(
        sort_migration_names(vec!["b".to_string(), "ab".to_string(), "a".to_string()]),
        vec!["a".to_string(), "ab".to_string(), "b".to_string()]
    );
}

#[test]
fn pending_migrations_skip_applied_ones_in_name_order() {
    let names = vec![
        "0003_c.sql".to_string(),
        "0001_a.sql".to_string(),
        "0002_b.sql".to_string(),
    ];
    let applied = vec!["0001_a.sql".to_string()];
    let pending = pending_migrations(names.clone(), &applied);
    assert_eq!(pending, vec!["0002_b.sql".to_string(), "0003_c.sql".to_string()]);

    let mut now_applied = applied.clone();
    now_applied.extend(pending);
    assert!(pending_migrations(names.clone(), &now_applied).is_empty());
    assert_eq!(pending_migrations(names, &Vec::new()).len(), 3);
}

fn row(created_at: &str, updated_at: &str) -> RunRow {
    RunRow {
        id: "run-1".to_string(),
        ticker: "NVDA".to_string(),
        question: "Why?".to_string(),
        status: "completed".to_string(),
        created_at: created_at.to_string(),
        updated_at: updated_at.to_string(),
        final_iteration_number: Some(3),
        final_memo_markdown: Some("# Memo".to_string()),
        final_memo_html: None,
        summary: Some("short".to_string()),
    }
}

#[test]
fn run_rows_are_read_with_their_instants() {
    let r = match run_from_row(row("2024-01-02T03:04:05Z", "2024-01-02T03:04:06+00:00")) {
        Ok(r) => r,
        Err(_) => panic!("row should be readable"),
    };
    assert_eq!(r.id, "run-1");
    assert_eq!(r.ticker, "NVDA");
    assert_eq!(r.status, "completed");
    assert!(r.created_at == Timestamp { unix_seconds: 1704164645, nanos: 0 });
    assert!(r.updated_at == Timestamp { unix_seconds: 1704164646, nanos: 0 });
    assert_eq!(r.final_iteration_number, Some(3));
    assert_eq!(r.final_memo_markdown.as_deref(), Some("# Memo"));
    assert_eq!(r.summary.as_deref(), Some("short"));

    assert!(matches!(
        run_from_row(row("bad", "also bad")),
        Err(RowError::InvalidTimestamp(TimestampColumn::CreatedAt))
    ));
    assert!(matches!(
        run_from_row(row("2024-01-02T03:04:05Z", "bad")),
        Err(RowError::InvalidTimestamp(TimestampColumn::UpdatedAt))
    ));
    let t = Timestamp { unix_seconds: 1, nanos: 2 };
    assert!(run_record_from_parts(row("x", "y"), Some(t), Some(t)).is_ok());
    assert!(matches!(
        run_record_from_parts(row("x", "y"), Some(t), None),
        Err(RowError::InvalidTimestamp(TimestampColumn::UpdatedAt))
    ));
}
