use mansplain::request::{
    authorization, chat_request, chat_turns, check_status, endpoint, generate_request, succeeded,
    user_prompt, Role, TransportError,
};
use mansplain::wire::WireFormat;

#[test]
fn the_user_prompt_wraps_the_manual() {
    assert_eq!(
        user_prompt("LS(1)"),
        "Here is a man page for the user to understand:\n\nLS(1)\n\nPlease mansplain this to them."
    );
}

#[test]
fn role_names_are_lower_case() {
    assert_eq!(Role::System.name(), "system");
    assert_eq!(Role::User.name(), "user");
    assert_eq!(Role::Assistant.name(), "assistant");
}

#[test]
fn a_chat_is_the_system_prompt_then_the_user_prompt() {
    let turns = chat_turns("be kind", "LS(1)");
    assert_eq!(turns.len(), 2);
    assert_eq!(turns[0].role, Role::System);
    assert_eq!(turns[0].text, "be kind");
    assert_eq!(turns[1].role, Role::User);
    assert_eq!(turns[1].text, user_prompt("LS(1)"));
}

#[test]
fn a_generate_request_carries_model_prompt_and_system() {
    let request = generate_request("gemma3:12b", "be kind", "LS(1)", true);
    assert_eq!(request.model, "gemma3:12b");
    assert_eq!(request.prompt, user_prompt("LS(1)"));
    assert_eq!(request.system, "be kind");
    assert!(request.stream);
    assert!(!generate_request("m", "s", "p", false).stream);
}

#[test]
fn a_chat_request_carries_model_and_turns() {
    let request = chat_request("sonar", "be kind", "LS(1)", false);
    assert_eq!(request.model, "sonar");
    assert_eq!(request.messages.len(), 2);
    assert_eq!(request.messages[0].role, Role::System);
    assert_eq!(request.messages[0].text, "be kind");
    assert_eq!(request.messages[1].role, Role::User);
    assert_eq!(request.messages[1].text, user_prompt("LS(1)"));
    assert!(!request.stream);
}

#[test]
fn endpoints_follow_the_format() {
    assert_eq!(
        endpoint(WireFormat::LineJson, "http://localhost:11434"),
        "http://localhost:11434/api/generate"
    );
    assert_eq!(
        endpoint(WireFormat::EventStream, "https://api.openai.com/v1"),
        "https://api.openai.com/v1/chat/completions"
    );
    assert_eq!(endpoint(WireFormat::LineJson, ""), "/api/generate");
}

#[test]
fn a_key_becomes_a_bearer_header() {
    assert_eq!(authorization(Some("my-key")).as_deref(), Some("Bearer my-key"));
    assert_eq!(authorization(Some("")).as_deref(), Some("Bearer "));
    assert_eq!(authorization(None), None);
}

#[test]
fn statuses_from_200_to_299_are_successes() {
    for code in [200_u16, 201, 204, 299] {
        assert!(succeeded(code));
        assert!(check_status(code, "OK".to_string(), None).is_ok());
        assert!(check_status(code, "OK".to_string(), Some("ignored".to_string())).is_ok());
    }
}

#[test]
fn other_statuses_are_failures_that_keep_code_and_body() {
    for code in [0_u16, 100, 199, 300, 301, 404, 500, 65535] {
        assert!(!succeeded(code));
        let error =
            check_status(code, "Not Found".to_string(), Some("quota".to_string())).unwrap_err();
        assert!(matches!(
            error,
            TransportError::Status { code: told, ref reason, details: Some(ref body) }
                if told == code && reason == "Not Found" && body == "quota"
        ));
        let bare = check_status(code, "Gone".to_string(), None).unwrap_err();
        assert!(matches!(
            bare,
            TransportError::Status { code: told, ref reason, details: None }
                if told == code && reason == "Gone"
        ));
    }
}

#[test]
fn transport_failures_describe_themselves() {
    let unreachable = TransportError::Unreachable { detail: "connection refused".to_string() };
    assert_eq!(unreachable.message(), "Failed to connect to LLM API: connection refused");
    let bare = TransportError::Status { code: 404, reason: "404 Not Found".to_string(), details: None };
    assert_eq!(bare.message(), "LLM API returned error: 404 Not Found");
    let detailed = TransportError::Status {
        code: 429,
        reason: "429 Too Many Requests".to_string(),
        details: Some("{\"error\":\"quota\"}".to_string()),
    };
    assert_eq!(
        detailed.message(),
        "LLM API returned error: 429 Too Many Requests\nDetails: {\"error\":\"quota\"}"
    );
}
