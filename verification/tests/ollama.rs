use ollama_wsock_connector::ollama::{
    check_status, is_success, ChatReply, Endpoint, OllamaClient, OllamaError,
    TagsModel, TagsReply, TagsResponse,
};
use ollama_wsock_connector::protocol::{ChatMessage, ModelInfo};
use ollama_wsock_connector::text::snippet;

fn client() -> OllamaClient {
    OllamaClient::new("http://127.0.0.1:11434/".to_string())
}

#[test]
fn endpoints_hang_off_the_base_url() {
    assert_eq!(client().url(Endpoint::Tags).unwrap(), "http://127.0.0.1:11434/api/tags");
    assert_eq!(client().url(Endpoint::Chat).unwrap(), "http://127.0.0.1:11434/api/chat");
    let below = OllamaClient::new("http://h/x/".to_string());
    assert_eq!(below.url(Endpoint::Tags).unwrap(), "http://h/x/api/tags");
    let beside = OllamaClient::new("http://h/x".to_string());
    assert_eq!(beside.url(Endpoint::Tags).unwrap(), "http://h/api/tags");
}

#[test]
fn a_base_that_cannot_be_joined_is_an_error() {
    let err = OllamaClient::new("mailto:x@y".to_string()).url(Endpoint::Chat).unwrap_err();
    assert_eq!(
        err.message(),
        "building /api/chat url: relative URL with a cannot-be-a-base base"
    );
}

#[test]
fn a_chat_request_is_passed_through_unchanged() {
    let messages = vec![
        ChatMessage { role: "system".into(), content: "You are a concise assistant.".into() },
        ChatMessage { role: "user".into(), content: "Hi!".into() },
    ];
    let options: serde_json::Value = serde_json::from_str("{\"temperature\":0.7}").unwrap();
    let client = client();
    let call = client.chat_stream("llama3.2:latest", &messages, Some(&options)).unwrap();
    assert_eq!(call.url, "http://127.0.0.1:11434/api/chat");
    assert_eq!(call.body.model, "llama3.2:latest");
    assert_eq!(call.body.messages, &messages[..]);
    assert!(call.body.stream);
    assert_eq!(call.body.options, Some(&options));
    let call = client.chat_stream("m", &[], None).unwrap();
    assert!(call.body.options.is_none());
}

#[test]
fn success_is_two_hundred_to_two_hundred_ninety_nine() {
    assert!(!is_success(199));
    assert!(is_success(200));
    assert!(is_success(299));
    assert!(!is_success(300));
    assert!(check_status(204, Some("x".into()), Endpoint::Tags).is_ok());
}

#[test]
fn a_refusal_repeats_the_body() {
    let err = check_status(400, Some("\n {\"error\":\"bad\"}\t\n".into()), Endpoint::Chat).unwrap_err();
    assert_eq!(err.message(), "ollama /api/chat returned 400 Bad Request: {\"error\":\"bad\"}");
    let err = check_status(404, Some("\u{a0}\u{3000}gone\u{2009}".into()), Endpoint::Tags).unwrap_err();
    assert_eq!(err.message(), "ollama /api/tags returned 404 Not Found: gone");
}

#[test]
fn a_refusal_without_a_body_is_short() {
    for body in [None, Some("".to_string()), Some(" \n\t ".to_string())] {
        let err = check_status(500, body, Endpoint::Tags).unwrap_err();
        assert_eq!(err.message(), "ollama /api/tags returned 500 Internal Server Error");
    }
    let err = check_status(599, None, Endpoint::Tags).unwrap_err();
    assert_eq!(err.message(), "ollama /api/tags returned 599 <unknown status code>");
}

#[test]
fn a_long_body_is_cut_by_characters() {
    let body = format!("  {}  ", "ä".repeat(600));
    let err = check_status(500, Some(body), Endpoint::Chat).unwrap_err();
    assert_eq!(
        err.message(),
        format!("ollama /api/chat returned 500 Internal Server Error: {}", "ä".repeat(512))
    );
    assert_eq!(snippet("häß", 2), "hä");
    assert_eq!(snippet("häß", 3), "häß");
    assert_eq!(snippet("", 3), "");
}

#[test]
fn white_space_is_what_unicode_says() {
    let white = "\u{9}\u{a}\u{b}\u{c}\u{d}\u{20}\u{85}\u{a0}\u{1680}\u{2000}\u{2001}\u{2002}\u{2003}\u{2004}\u{2005}\u{2006}\u{2007}\u{2008}\u{2009}\u{200a}\u{2028}\u{2029}\u{202f}\u{205f}\u{3000}";
    for code in 0..=0x10ffffu32 {
        if let Some(c) = char::from_u32(code) {
            assert_eq!(c.is_whitespace(), white.contains(c));
        }
    }
    let err = check_status(500, Some(format!("{white}a b{white}")), Endpoint::Chat).unwrap_err();
    assert!(err.message().ends_with("Error: a b"));
}

#[test]
fn models_are_listed_in_order() {
    let reply = TagsReply::Models(TagsResponse {
        models: vec![
            TagsModel {
                name: "llama3:8b".into(),
                size: Some(4_700_000_000),
                modified_at: Some("2024-01-01T00:00:00Z".into()),
            },
            TagsModel { name: "b".into(), size: None, modified_at: None },
        ],
    });
    assert_eq!(
        client().list_models(reply).unwrap(),
        vec![
            ModelInfo {
                name: "llama3:8b".into(),
                size: Some(4_700_000_000),
                modified_at: Some("2024-01-01T00:00:00Z".into()),
            },
            ModelInfo { name: "b".into(), size: None, modified_at: None },
        ]
    );
    let none = TagsReply::Models(TagsResponse { models: vec![] });
    assert_eq!(client().list_models(none).unwrap(), vec![]);
}

#[test]
fn failed_model_requests_say_why() {
    let message = |reply| client().list_models(reply).unwrap_err().message();
    assert_eq!(
        message(TagsReply::Unsent { cause: "refused".into() }),
        "sending /api/tags request: refused"
    );
    assert_eq!(
        message(TagsReply::Refused { status: 404, body: Some("nope".into()) }),
        "ollama /api/tags returned 404 Not Found: nope"
    );
    assert_eq!(
        message(TagsReply::Unreadable { cause: "eof".into() }),
        "parsing /api/tags response: eof"
    );
}

#[test]
fn failed_chat_requests_say_why() {
    let message = |reply| client().open_chat(reply).unwrap_err().message();
    assert_eq!(
        message(ChatReply::Unsent { cause: "refused".into() }),
        "sending /api/chat request: refused"
    );
    assert_eq!(
        message(ChatReply::Refused { status: 400, body: Some("bad".into()) }),
        "ollama /api/chat returned 400 Bad Request: bad"
    );
    assert!(client().open_chat(ChatReply::Streaming).is_ok());
}

#[test]
fn a_summary_leaves_the_cause_out() {
    let of_models = |reply| client().list_models(reply).unwrap_err().summary();
    assert_eq!(
        of_models(TagsReply::Unsent { cause: "refused".into() }),
        "sending /api/tags request"
    );
    assert_eq!(
        of_models(TagsReply::Unreadable { cause: "eof".into() }),
        "parsing /api/tags response"
    );
    assert_eq!(
        of_models(TagsReply::Refused { status: 404, body: Some("nope".into()) }),
        "ollama /api/tags returned 404 Not Found: nope"
    );
    let no_base = OllamaClient::new("data:nothing".into());
    assert_eq!(no_base.url(Endpoint::Chat).unwrap_err().summary(), "building /api/chat url");
}
