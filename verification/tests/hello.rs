use api_telemetry::hello::{
    greet, hello, remote_hello_headers, remote_hello_reply, remote_hello_url, GreetContent,
    GreetContentError, GreetResponse, MESSAGE_MAX_LENGTH, MESSAGE_MIN_LENGTH, PERSON_MAX_LENGTH,
    PERSON_MIN_LENGTH,
};
use api_telemetry::propagation::SpanContext;

#[test]
fn hello_says_hello() {
    assert_eq!(hello(), "Hello, World!");
}

#[test]
fn limits_of_a_greeting() {
    assert_eq!(PERSON_MIN_LENGTH, 1);
    assert_eq!(PERSON_MAX_LENGTH, 20);
    assert_eq!(MESSAGE_MIN_LENGTH, 3);
    assert_eq!(MESSAGE_MAX_LENGTH, 32);
}

#[test]
fn try_new_accepts_lengths_within_the_limits() {
    for (person, message) in [("a", "abc"), ("Taro", "How are you?")] {
        let content = GreetContent::try_new(person.to_string(), message.to_string()).unwrap();
        assert_eq!(content.person, person);
        assert_eq!(content.message, message);
    }
    let content = GreetContent::try_new("p".repeat(20), "m".repeat(32)).unwrap();
    assert_eq!(content.person.len(), 20);
    assert_eq!(content.message.len(), 32);
}

#[test]
fn try_new_refuses_the_person_first() {
    let refused = |person: &str, message: &str| {
        GreetContent::try_new(person.to_string(), message.to_string()).err()
    };
    assert_eq!(refused("", "abc"), Some(GreetContentError::InvalidPerson));
    assert_eq!(refused(&"p".repeat(21), "abc"), Some(GreetContentError::InvalidPerson));
    assert_eq!(refused("", ""), Some(GreetContentError::InvalidPerson));
    assert_eq!(refused("a", "ab"), Some(GreetContentError::InvalidMessage));
    assert_eq!(refused("a", &"m".repeat(33)), Some(GreetContentError::InvalidMessage));
    assert_eq!(refused("a", ""), Some(GreetContentError::InvalidMessage));
}

#[test]
fn try_new_counts_bytes() {
    let seven = "\u{5c71}\u{7530}\u{592a}\u{90ce}\u{5c71}\u{7530}\u{592a}";
    assert_eq!(seven.len(), 21);
    assert_eq!(
        GreetContent::try_new(seven.to_string(), "abc".to_string()).err(),
        Some(GreetContentError::InvalidPerson)
    );
    let one = "\u{3084}";
    assert_eq!(one.len(), 3);
    assert!(GreetContent::try_new("a".to_string(), one.to_string()).is_ok());
}

#[test]
fn create_greeting_joins_the_parts() {
    let content = GreetContent { person: "Taro".to_string(), message: "Hi there".to_string() };
    let response = GreetResponse::create_greeting(&content);
    assert_eq!(response.greeting, "\u{3084}\u{3041} Taro, Hi there");
    assert_eq!(response.greeting, format!("やぁ {}, {}", "Taro", "Hi there"));
}

#[test]
fn greet_answers_with_the_greeting() {
    let (status, response) = greet("Taro".to_string(), "Hi there".to_string()).ok().unwrap();
    assert_eq!(status, 200);
    assert_eq!(response.greeting, "やぁ Taro, Hi there");
}

#[test]
fn greet_says_which_length_is_refused() {
    let (status, text) = greet(String::new(), "Hi there".to_string()).err().unwrap();
    assert_eq!(status, 400);
    assert_eq!(text, "person length must be between 1 and 20");
    let (status, text) = greet("Taro".to_string(), "Hi".to_string()).err().unwrap();
    assert_eq!(status, 400);
    assert_eq!(text, "message length must be between 3 and 32");
    let (_, text) = greet(String::new(), String::new()).err().unwrap();
    assert_eq!(text, "person length must be between 1 and 20");
}

#[test]
fn remote_url_is_below_the_endpoint() {
    assert_eq!(remote_hello_url("http://localhost:3030"), "http://localhost:3030/api/v0/hello");
    assert_eq!(remote_hello_url(""), "/api/v0/hello");
}

#[test]
fn remote_headers_carry_the_context() {
    let context = SpanContext { trace_id: 0xabc, span_id: 0xdef, trace_flags: 1 };
    let headers = remote_hello_headers(&Some(context));
    assert_eq!(headers.fields.len(), 1);
    assert_eq!(headers.fields[0].name, "traceparent");
    assert_eq!(
        headers.fields[0].value,
        "00-00000000000000000000000000000abc-0000000000000def-01"
    );
    assert!(remote_hello_headers(&None).fields.is_empty());
    let invalid = SpanContext { trace_id: 0, span_id: 0, trace_flags: 0 };
    assert!(remote_hello_headers(&Some(invalid)).fields.is_empty());
}

#[test]
fn remote_reply_passes_the_body_or_describes_the_failure() {
    assert_eq!(remote_hello_reply(Ok("Hello, World!".to_string())), "Hello, World!");
    assert_eq!(remote_hello_reply(Ok(String::new())), "");
    assert_eq!(
        remote_hello_reply(Err("connection refused".to_string())),
        "Error calling remote endpoint: connection refused"
    );
}
