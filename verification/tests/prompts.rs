use autothesis::error::AppError;
use autothesis::prompts::{required_prompt_names, PromptStore};

#[test]
fn prompts_read_back_what_was_stored() {
    let mut store = PromptStore::new();
    store.insert("planner".to_string(), "plan it".to_string());
    store.insert("critic".to_string(), "criticise".to_string());
    store.insert("planner".to_string(), "plan again".to_string());
    assert_eq!(store.get("planner").ok(), Some("plan again"));
    assert_eq!(store.get("critic").ok(), Some("criticise"));
    match store.get("reader") {
        Err(AppError::Internal(m)) => assert_eq!(m, "missing prompt: reader"),
        _ => panic!("expected a missing prompt"),
    }
}

#[test]
fn required_prompts_are_listed() {
    assert_eq!(
        required_prompt_names(),
        vec![
            "planner",
            "search_query_writer",
            "reader",
            "synthesizer",
            "critic",
            "evaluator",
            "scanner_signal",
            "preliminary_thesis"
        ]
    );
}
