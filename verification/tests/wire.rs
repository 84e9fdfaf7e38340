use russell::doctor::model::{clean_model_name, model_tags_url, settled_model_name};
use russell::doctor::completion::{parse_completion, CompletionBody, CompletionChoice, CompletionMessage};
use russell::doctor::error::DoctorError;
use russell::doctor::client::{LlmClient, SoapPrompt};
use russell::doctor::openrouter::map_http_status_error;
use russell::meta::mock::{MockClient, JACK_MOCK_REPLY};

fn message(content: Option<&str>, details: Option<Vec<Option<&str>>>, reasoning: Option<&str>) -> CompletionChoice {
    CompletionChoice::Message(CompletionMessage {
        content: content.map(str::to_string),
        reasoning_details: details.map(|d| d.into_iter().map(|t| t.map(str::to_string)).collect()),
        reasoning_content: reasoning.map(str::to_string),
    })
}

fn body(choice: CompletionChoice) -> CompletionBody {
    CompletionBody { choice, model: None, prompt_tokens: None, completion_tokens: None }
}

// {"id":"x","model":"deepseekv4pro",
//  "choices":[{"message":{"role":"assistant","content":"hello"}}],
//  "usage":{"prompt_tokens":10,"completion_tokens":2}}
fn standard() -> CompletionBody {
    CompletionBody {
        choice: message(Some("hello"), None, None),
        model: Some("deepseekv4pro".to_string()),
        prompt_tokens: Some(10),
        completion_tokens: Some(2),
    }
}

#[test]
fn oai_client_parses_standard_openai_response() {
    let p = parse_completion("{}", standard()).unwrap();
    assert_eq!(p.content, "hello");
    assert_eq!(p.model.as_deref(), Some("deepseekv4pro"));
    assert_eq!(p.prompt_tokens, Some(10));
}

#[test]
fn openrouter_parses_standard_openai_response() {
    let p = parse_completion("{}", standard()).unwrap();
    assert_eq!(p.content, "hello");
    assert_eq!(p.model.as_deref(), Some("deepseekv4pro"));
    assert_eq!(p.prompt_tokens, Some(10));
    assert_eq!(p.completion_tokens, Some(2));
}

// "content":null, "reasoning_details":[{"text":"thought"}]
#[test]
fn oai_client_promotes_reasoning_details_when_content_null() {
    let p = parse_completion("{}", body(message(None, Some(vec![Some("thought")]), None))).unwrap();
    assert_eq!(p.content, "thought");
}

#[test]
fn openrouter_promotes_reasoning_details_when_content_null() {
    let p = parse_completion("{}", body(message(None, Some(vec![Some("thought")]), None))).unwrap();
    assert_eq!(p.content, "thought");
}

// "reasoning_content":"thought2", no "content"
#[test]
fn oai_client_promotes_reasoning_content_when_content_missing() {
    let p = parse_completion("{}", body(message(None, None, Some("thought2")))).unwrap();
    assert_eq!(p.content, "thought2");
}

#[test]
fn openrouter_promotes_reasoning_content_when_content_missing() {
    let p = parse_completion("{}", body(message(None, None, Some("thought2")))).unwrap();
    assert_eq!(p.content, "thought2");
}

// {"choices":[{"message":{"role":"assistant"}}]}
#[test]
fn oai_client_rejects_response_with_no_content() {
    assert!(matches!(parse_completion("{}", body(message(None, None, None))), Err(DoctorError::BadResponse(_))));
}

#[test]
fn openrouter_rejects_response_with_no_content() {
    assert!(matches!(parse_completion("{}", body(message(None, None, None))), Err(DoctorError::BadResponse(_))));
}

#[test]
fn empty_content_falls_through_to_the_first_detail_with_text() {
    let p = parse_completion("{}", body(message(Some(""), Some(vec![None, Some("second")]), Some("rc")))).unwrap();
    assert_eq!(p.content, "second");
    let p = parse_completion("{}", body(message(Some(""), Some(vec![None]), Some("rc")))).unwrap();
    assert_eq!(p.content, "rc");
}

#[test]
fn missing_choice_or_message_is_a_bad_response() {
    match parse_completion("{\"choices\":[]}", body(CompletionChoice::Missing)) {
        Err(DoctorError::BadResponse(m)) => assert_eq!(m, "no choices in response: {\"choices\":[]}"),
        other => panic!("unexpected {:?}", other),
    }
    match parse_completion("{}", body(CompletionChoice::NoMessage)) {
        Err(DoctorError::BadResponse(m)) => assert_eq!(m, "no message in choice"),
        other => panic!("unexpected {:?}", other),
    }
    match parse_completion("{}", body(message(None, None, None))) {
        Err(DoctorError::BadResponse(m)) => assert_eq!(m, "response had no usable content field"),
        other => panic!("unexpected {:?}", other),
    }
}

#[test]
fn token_counts_saturate_at_u32_max() {
    let mut b = standard();
    b.prompt_tokens = Some(5_000_000_000);
    b.completion_tokens = None;
    let p = parse_completion("{}", b).unwrap();
    assert_eq!(p.prompt_tokens, Some(u32::MAX));
    assert_eq!(p.completion_tokens, None);
}

#[test]
fn openrouter_maps_404_to_model_not_found() {
    let err = map_http_status_error(
        404,
        "no such model".into(),
        None,
        "https://openrouter.ai/api/v1/chat/completions",
    );
    match err {
        DoctorError::ModelNotFound(m) => {
            assert_eq!(m, "no such model (url: https://openrouter.ai/api/v1/chat/completions)")
        }
        other => panic!("unexpected {:?}", other),
    }
}

#[test]
fn maps_zdr_failure() {
    let err = map_http_status_error(
        403,
        "Zero data retention required but no ZDR provider available".into(),
        None,
        "",
    );
    assert!(matches!(err, DoctorError::ZdrRoutingFailed(_)));
}

#[test]
fn openrouter_maps_429_with_retry_after() {
    let err = map_http_status_error(429, "rate".into(), Some(30), "");
    assert!(matches!(err, DoctorError::RateLimited { retry_after_seconds: Some(30) }));
}

#[test]
fn a_403_without_the_phrase_is_a_plain_http_error() {
    match map_http_status_error(403, "forbidden".into(), None, "") {
        DoctorError::Http { status, message, .. } => {
            assert_eq!(status, Some(403));
            assert_eq!(message, "forbidden");
        }
        other => panic!("unexpected {:?}", other),
    }
    // The phrase only counts on a 403.
    assert!(matches!(
        map_http_status_error(402, "zero data retention".into(), None, ""),
        DoctorError::Http { status: Some(402), .. }
    ));
}

#[test]
fn mock_client_always_gives_its_reply() {
    let soap = SoapPrompt {
        system: "persona".into(),
        subjective: "note".into(),
        objective: "objective".into(),
        rendered: "rendered".into(),
    };
    let reply = MockClient::jack_default().chat(&soap).unwrap();
    assert!(reply.content.contains("Mock Jack"));
    assert_eq!(reply.content, JACK_MOCK_REPLY);
    assert_eq!(reply.model.as_deref(), Some("mock"));
    assert_eq!(reply.latency_ms, 0);
    let custom = MockClient::new("hello".into()).chat(&soap).unwrap();
    assert_eq!(custom.content, "hello");
    assert_eq!(custom.prompt_tokens, None);
}

#[test]
fn model_resolution_parts() {
    assert_eq!(model_tags_url("http://127.0.0.1:11435/v1"), "http://127.0.0.1:11435/api/tags");
    assert_eq!(model_tags_url("http://h/v1/v1//"), "http://h/v1/v1/api/tags");
    assert_eq!(model_tags_url("http://h/v1/v1"), "http://h/api/tags");
    assert_eq!(model_tags_url("http://h//"), "http://h/api/tags");
    assert_eq!(clean_model_name("Nemotron3-Super:cloud"), "nemotron3supercloud");
    assert_eq!(settled_model_name("m", &None), Some("m".to_string()));
    assert_eq!(settled_model_name("m", &Some(vec![])), Some("m".to_string()));
    assert_eq!(settled_model_name("m", &Some(vec!["a".into(), "m".into()])), Some("m".to_string()));
    assert_eq!(settled_model_name("m", &Some(vec!["a".into()])), None);
}
