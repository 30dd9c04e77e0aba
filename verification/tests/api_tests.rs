use agent_web::api::{build_chat_url, first_choice_text, ChatMessage, ChatResponse, Choice};

#[test]
fn chat_url_appends_v1_to_bare_host() {
    assert_eq!(build_chat_url("https://api.openai.com").as_str(), "https://api.openai.com/v1/chat/completions");
}

#[test]
fn chat_url_strips_trailing_slashes() {
    assert_eq!(build_chat_url("https://api.openai.com//").as_str(), "https://api.openai.com/v1/chat/completions");
}

#[test]
fn chat_url_keeps_versioned_path() {
    assert_eq!(build_chat_url("https://api.example.com/v1").as_str(), "https://api.example.com/v1/chat/completions");
    assert_eq!(
        build_chat_url("https://ark.cn-beijing.volces.com/api/coding/v3").as_str(),
        "https://ark.cn-beijing.volces.com/api/coding/v3/chat/completions"
    );
}

#[test]
fn chat_url_full_path_used_as_is() {
    assert_eq!(
        build_chat_url("https://api.example.com/v1/chat/completions/").as_str(),
        "https://api.example.com/v1/chat/completions"
    );
}

#[test]
fn chat_url_scheme_is_not_a_path() {
    assert_eq!(build_chat_url("http://v1host.example").as_str(), "http://v1host.example/v1/chat/completions");
}

#[test]
fn chat_url_is_idempotent() {
    for base in ["https://api.openai.com", "https://x.io/api/", "localhost:8080/v2", "https://a.b/v1/chat/completions"] {
        let once = build_chat_url(base);
        let twice = build_chat_url(once.as_str());
        assert_eq!(once, twice);
    }
}

#[test]
fn chat_message_constructors() {
    let m = ChatMessage::user("hi");
    assert_eq!(m.role, "user");
    assert_eq!(m.content, "hi");
    assert!(m.tool_calls.is_none());
    assert_eq!(ChatMessage::assistant("a").role, "assistant");
    assert_eq!(ChatMessage::system("s").role, "system");
}

#[test]
fn reply_text_is_first_choice() {
    let resp = ChatResponse {
        id: "1".to_string(),
        object: "chat.completion".to_string(),
        created: 0,
        model: "m".to_string(),
        choices: vec![
            Choice { index: 0, message: ChatMessage::assistant("first"), finish_reason: None },
            Choice { index: 1, message: ChatMessage::assistant("second"), finish_reason: None },
        ],
        usage: None,
    };
    assert_eq!(first_choice_text(&resp), "first");
    let empty = ChatResponse { choices: vec![], ..resp };
    assert_eq!(first_choice_text(&empty), "");
}
