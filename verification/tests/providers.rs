use autothesis::providers::{
    base_url_or, claude_messages_url, extract_json_object, gemini_generate_url,
    json_span_is_cuttable, ollama_chat_url, openai_chat_url, retry_pause_ms,
};

#[test]
fn endpoints_drop_trailing_slashes() {
    assert_eq!(openai_chat_url("https://api.openai.com/v1//"), "https://api.openai.com/v1/chat/completions");
    assert_eq!(claude_messages_url("https://api.anthropic.com"), "https://api.anthropic.com/v1/messages");
    assert_eq!(ollama_chat_url("http://localhost:11434/"), "http://localhost:11434/api/chat");
    assert_eq!(
        gemini_generate_url("https://g.example/", "gemini-pro", "k1"),
        "https://g.example/v1beta/models/gemini-pro:generateContent?key=k1"
    );
    assert_eq!(base_url_or(None, "http://localhost:11434"), "http://localhost:11434");
    assert_eq!(base_url_or(Some("http://h".to_string()), "x"), "http://h");
}

#[test]
fn retry_pauses_grow_then_stop() {
    assert_eq!(retry_pause_ms(0), Some(500));
    assert_eq!(retry_pause_ms(1), Some(1000));
    assert_eq!(retry_pause_ms(2), None);
}

#[test]
fn json_objects_are_cut_out_of_prose() {
    assert_eq!(extract_json_object("Sure! {\"a\": {\"b\": 1}} hope it helps"), "{\"a\": {\"b\": 1}}");
    assert_eq!(extract_json_object("no json here"), "no json here");
    assert_eq!(extract_json_object("only { open"), "only { open");
    assert!(json_span_is_cuttable("}{"));
    assert_eq!(extract_json_object("}{"), "");
    assert!(!json_span_is_cuttable("} x {"));
}
