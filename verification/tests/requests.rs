use http_relay::greet;
use http_relay::request::{
    call_api_request, chat_api_request, headers_of_document, headers_of_text, resolve_method,
    select_headers, Request,
};
use http_relay::text::decimal_string;
use serde_json::Value;

fn pair(name: &str, value: &str) -> (String, String) {
    (name.to_string(), value.to_string())
}

fn sorted(mut headers: Vec<(String, String)>) -> Vec<(String, String)> {
    headers.sort();
    headers
}

#[test]
fn greeting_is_fixed() {
    assert_eq!(greet(), "Hello AJ7!");
}

#[test]
fn decimal_numerals() {
    assert_eq!(decimal_string(0), "0");
    assert_eq!(decimal_string(7), "7");
    assert_eq!(decimal_string(10), "10");
    assert_eq!(decimal_string(200), "200");
    assert_eq!(decimal_string(404), "404");
    assert_eq!(decimal_string(1009), "1009");
    assert_eq!(decimal_string(65535), "65535");
}

#[test]
fn known_methods_are_kept() {
    assert_eq!(resolve_method("GET"), "GET");
    assert_eq!(resolve_method("POST"), "POST");
    assert_eq!(resolve_method("DELETE"), "DELETE");
    assert_eq!(resolve_method("PATCH"), "PATCH");
    assert_eq!(resolve_method("OPTIONS"), "OPTIONS");
}

#[test]
fn other_method_names_are_kept() {
    assert_eq!(resolve_method("M-SEARCH"), "M-SEARCH");
    assert_eq!(resolve_method("ABCDEFGHIJKLMNOPQRSTUVWXYZ"), "ABCDEFGHIJKLMNOPQRSTUVWXYZ");
    assert_eq!(resolve_method("!#$%&'*+-.^_`|~"), "!#$%&'*+-.^_`|~");
    assert_eq!(resolve_method("0123456789"), "0123456789");
}

#[test]
fn method_is_read_without_regard_to_case() {
    assert_eq!(resolve_method("post"), "POST");
    assert_eq!(resolve_method("get"), "GET");
    assert_eq!(resolve_method("Get"), "GET");
    assert_eq!(resolve_method("pAtCh"), "PATCH");
    assert_eq!(resolve_method("delete"), "DELETE");
    assert_eq!(resolve_method("m-search"), "M-SEARCH");
    assert_eq!(resolve_method("a"), "A");
    assert_eq!(resolve_method("z"), "Z");
    assert_eq!(resolve_method("x1!z`{".trim_end_matches('{')), "X1!Z`");
    assert_eq!(resolve_method("abcdefghijklmnopqrstuvwxyz"), "ABCDEFGHIJKLMNOPQRSTUVWXYZ");
}

#[test]
fn call_request_with_a_method_in_small_letters() {
    let request = call_api_request(
        "post".to_string(),
        "https://example.test/ok".to_string(),
        None,
        Some("x".to_string()),
    );
    assert_eq!(
        request,
        Request {
            method: "POST".to_string(),
            url: "https://example.test/ok".to_string(),
            headers: Vec::new(),
            body: Some("x".to_string()),
        }
    );
}

#[test]
fn what_is_no_method_name_gives_get() {
    assert_eq!(resolve_method(""), "GET");
    assert_eq!(resolve_method("BAD METHOD"), "GET");
    assert_eq!(resolve_method("GET\n"), "GET");
    assert_eq!(resolve_method("G(T"), "GET");
    assert_eq!(resolve_method("G\u{e9}T"), "GET");
    assert_eq!(resolve_method("a/b"), "GET");
    assert_eq!(resolve_method("a:b"), "GET");
    assert_eq!(resolve_method("a@b"), "GET");
    assert_eq!(resolve_method("a[b"), "GET");
    assert_eq!(resolve_method("a{b"), "GET");
    assert_eq!(resolve_method("a}b"), "GET");
    assert_eq!(resolve_method("a\"b"), "GET");
    assert_eq!(resolve_method("a,b"), "GET");
    assert_eq!(resolve_method("a\u{7f}b"), "GET");
}

#[test]
fn string_members_are_selected_in_order() {
    let members = vec![
        ("A".to_string(), Some("1".to_string())),
        ("B".to_string(), None),
        ("C".to_string(), Some("3".to_string())),
        ("D".to_string(), None),
    ];
    assert_eq!(select_headers(members), vec![pair("A", "1"), pair("C", "3")]);
    assert_eq!(select_headers(Vec::new()), Vec::new());
    assert_eq!(select_headers(vec![("A".to_string(), None)]), Vec::new());
}

#[test]
fn every_string_header_is_attached_once() {
    let text = r#"{"Authorization":"Bearer t","Accept":"text/plain","X-Id":"7"}"#;
    let headers = headers_of_text(&Some(text.to_string()));
    assert_eq!(headers.len(), 3);
    assert_eq!(
        sorted(headers),
        vec![pair("Accept", "text/plain"), pair("Authorization", "Bearer t"), pair("X-Id", "7")]
    );
}

#[test]
fn members_that_are_no_strings_are_dropped() {
    let text = r#"{"a":"x","b":1,"c":null,"d":true,"e":["y"],"f":{"g":"h"},"i":""}"#;
    let headers = headers_of_text(&Some(text.to_string()));
    assert_eq!(sorted(headers), vec![pair("a", "x"), pair("i", "")]);
}

#[test]
fn a_key_written_twice_gives_one_header() {
    let headers = headers_of_text(&Some(r#"{"a":"1","a":"2"}"#.to_string()));
    assert_eq!(headers, vec![pair("a", "2")]);
}

#[test]
fn header_text_that_is_no_json_gives_no_header() {
    assert_eq!(headers_of_text(&Some("not json".to_string())), Vec::new());
    assert_eq!(headers_of_text(&Some("{\"a\":\"b\"".to_string())), Vec::new());
    assert_eq!(headers_of_text(&Some(String::new())), Vec::new());
    assert_eq!(headers_of_text(&None), Vec::new());
}

#[test]
fn header_text_that_is_no_object_gives_no_header() {
    assert_eq!(headers_of_text(&Some("[\"a\",\"b\"]".to_string())), Vec::new());
    assert_eq!(headers_of_text(&Some("\"a\"".to_string())), Vec::new());
    assert_eq!(headers_of_text(&Some("12".to_string())), Vec::new());
    assert_eq!(headers_of_text(&Some("null".to_string())), Vec::new());
}

#[test]
fn headers_of_a_document() {
    let doc: Value = serde_json::from_str(r#"{"k":"v","n":2}"#).unwrap();
    assert_eq!(headers_of_document(&doc), vec![pair("k", "v")]);
    let list: Value = serde_json::from_str("[1]").unwrap();
    assert_eq!(headers_of_document(&list), Vec::new());
}

#[test]
fn call_request_is_put_together() {
    let request = call_api_request(
        "PUT".to_string(),
        "https://example.test/items/1".to_string(),
        Some(r#"{"Content-Type":"application/json"}"#.to_string()),
        Some("{\"n\":1}".to_string()),
    );
    assert_eq!(
        request,
        Request {
            method: "PUT".to_string(),
            url: "https://example.test/items/1".to_string(),
            headers: vec![pair("Content-Type", "application/json")],
            body: Some("{\"n\":1}".to_string()),
        }
    );
}

#[test]
fn call_request_without_headers_and_body() {
    let request =
        call_api_request("GET".to_string(), "https://example.test/ok".to_string(), None, None);
    assert_eq!(request.method, "GET");
    assert_eq!(request.url, "https://example.test/ok");
    assert!(request.headers.is_empty());
    assert_eq!(request.body, None);
}

#[test]
fn call_request_degrades_silently() {
    let request = call_api_request(
        "not a method".to_string(),
        "https://example.test/x".to_string(),
        Some("{broken".to_string()),
        Some(String::new()),
    );
    assert_eq!(request.method, "GET");
    assert!(request.headers.is_empty());
    assert_eq!(request.body, Some(String::new()));
}

#[test]
fn chat_request_is_a_json_post() {
    let request = chat_api_request("https://example.test/chat".to_string(), "{\"q\":1}".to_string());
    assert_eq!(
        request,
        Request {
            method: "POST".to_string(),
            url: "https://example.test/chat".to_string(),
            headers: vec![pair("Content-Type", "application/json")],
            body: Some("{\"q\":1}".to_string()),
        }
    );
}
