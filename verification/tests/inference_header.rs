use russell::meta::prompt_registry::{inference_header_cut_ok, parse_inference_header};

fn split(body: &str) -> (Option<russell::meta::prompt_registry::InferenceHint>, String) {
    assert!(inference_header_cut_ok(body));
    parse_inference_header(body)
}

#[test]
fn parse_inference_header_extracts_params() {
    let body = "[inference]\ntemperature = 0.2\nmax_tokens = 4096\n\n# Hello\n{{ var }}";
    let (hint, stripped) = split(body);
    let hint = hint.unwrap();
    assert_eq!(hint.temperature.as_deref().and_then(|t| t.parse::<f64>().ok()), Some(0.2));
    assert_eq!(hint.max_tokens, Some(4096));
    assert!(stripped.contains("# Hello"));
    assert!(!stripped.contains("[inference]"));
    assert_eq!(stripped, "# Hello\n{{ var }}");
}

#[test]
fn parse_inference_header_no_header() {
    let body = "# Just a template\n{{ var }}";
    let (hint, stripped) = split(body);
    assert!(hint.is_none());
    assert_eq!(stripped, body);
}

#[test]
fn header_after_a_comment_and_quoted_values() {
    let body = "  {# soap #}\n[inference]\nreasoning_effort = \"\"high\"\nmax_tokens = 99999999999\nnoise\n\nBody";
    let (hint, stripped) = split(body);
    let hint = hint.unwrap();
    assert_eq!(hint.reasoning_effort.as_deref(), Some("high"));
    assert_eq!(hint.max_tokens, None);
    assert_eq!(hint.temperature, None);
    assert!(!hint.is_empty());
    assert_eq!(stripped, "Body");
}

#[test]
fn an_unclosed_comment_or_a_header_without_blank_line() {
    let (hint, stripped) = split("{# open\n[inference]\n\nx");
    assert!(hint.is_none());
    assert_eq!(stripped, "{# open\n[inference]\n\nx");
    // No blank line: the header runs to the end, and nothing is left.
    let (hint, stripped) = split("[inference]\ntemperature = 1.5");
    assert_eq!(hint.unwrap().temperature.as_deref(), Some("1.5"));
    assert_eq!(stripped, "");
}

#[test]
fn carriage_returns_are_not_counted() {
    // `str::lines` drops each `\r`, so the cut falls one byte early per
    // CRLF line.
    let (hint, stripped) = split("[inference]\r\nmax_tokens = 5\r\n\r\nBody");
    assert_eq!(hint.unwrap().max_tokens, Some(5));
    assert_eq!(stripped, "\n\r\nBody");
    // Five CRLF lines move the cut into the middle of `é`.
    assert!(!inference_header_cut_ok("[inference]\r\na=1\r\nb=2\r\nc=é\r\n\r\nX"));
}
