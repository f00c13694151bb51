use kv_store::json::json_escape_str;
use kv_store::messages::{GetResponse, SetResponse};
use kv_store::proxy::{
    store_get_request, store_get_response, store_set_request, store_set_response, Config,
};
use kv_store::store::KeyValueStore;

#[test]
fn default_proxy_config() {
    let config = Config::new_empty();
    assert_eq!(config.address, "127.0.0.1:3000");
    assert_eq!(config.cert_path, "certs/cert.pem");
    assert_eq!(config.key_path, "certs/key.pem");
    assert_eq!(config.store_url, "https://[::1]:50051");
}

#[test]
fn explicit_proxy_config() {
    let config = Config::new(
        "0.0.0.0:8443".to_owned(),
        "tls/c.pem".to_owned(),
        "tls/k.pem".to_owned(),
        "https://store:50051".to_owned(),
    );
    assert_eq!(config.address, "0.0.0.0:8443");
    assert_eq!(config.cert_path, "tls/c.pem");
    assert_eq!(config.key_path, "tls/k.pem");
    assert_eq!(config.store_url, "https://store:50051");
}

#[test]
fn get_without_key_is_rejected() {
    let result = store_get_request(None);
    let response = result.expect_err("a missing key must be rejected");
    assert_eq!(response.status, 400);
    assert_eq!(response.body, "{\"error\":\"key argument must be provided\"}");
}

#[test]
fn get_with_empty_key_is_rejected() {
    let result = store_get_request(Some("".to_owned()));
    let response = result.expect_err("an empty key must be rejected");
    assert_eq!(response.status, 400);
    assert_eq!(response.body, "{\"error\":\"key argument must be provided\"}");
}

#[test]
fn get_with_key_is_forwarded() {
    let request = store_get_request(Some("foo".to_owned())).expect("a nonempty key passes");
    assert_eq!(request.key, "foo");
}

#[test]
fn set_with_missing_or_empty_arguments_is_rejected() {
    let rejected = [
        store_set_request(None, None),
        store_set_request(None, Some("v".to_owned())),
        store_set_request(Some("k".to_owned()), None),
        store_set_request(Some("".to_owned()), Some("v".to_owned())),
        store_set_request(Some("k".to_owned()), Some("".to_owned())),
        store_set_request(Some("".to_owned()), Some("".to_owned())),
    ];
    for result in rejected {
        let response = result.expect_err("the call must be rejected");
        assert_eq!(response.status, 400);
        assert_eq!(
            response.body,
            "{\"error\":\"key and value arguments must be provided\"}"
        );
    }
}

#[test]
fn set_with_both_arguments_is_forwarded() {
    let request =
        store_set_request(Some("bar".to_owned()), Some("baz".to_owned())).expect("the call passes");
    assert_eq!(request.key, "bar");
    assert_eq!(request.value, "baz");
}

#[test]
fn absent_value_renders_null() {
    let http = store_get_response(GetResponse { value: None });
    assert_eq!(http.status, 200);
    assert_eq!(http.body, "{\"value\":null}");
}

#[test]
fn present_value_renders_string() {
    let http = store_get_response(GetResponse {
        value: Some("baz".to_owned()),
    });
    assert_eq!(http.status, 200);
    assert_eq!(http.body, "{\"value\":\"baz\"}");
}

#[test]
fn value_with_special_characters_is_escaped() {
    let http = store_get_response(GetResponse {
        value: Some("say \"hi\"\\now\n".to_owned()),
    });
    assert_eq!(http.status, 200);
    assert_eq!(http.body, "{\"value\":\"say \\\"hi\\\"\\\\now\\n\"}");
}

#[test]
fn control_characters_use_unicode_escapes() {
    let escaped = json_escape_str("\u{1}\u{8}\u{9}\u{a}\u{c}\u{d}\u{1f}");
    assert_eq!(escaped, "\\u0001\\b\\t\\n\\f\\r\\u001f");
}

#[test]
fn plain_text_is_unchanged_by_escaping() {
    let escaped = json_escape_str("plain text, no escapes");
    assert_eq!(escaped, "plain text, no escapes");
}

#[test]
fn set_success_is_an_empty_object() {
    let http = store_set_response(SetResponse {});
    assert_eq!(http.status, 200);
    assert_eq!(http.body, "{}");
}

#[test]
fn set_then_get_end_to_end() {
    let mut store = KeyValueStore::new();

    let set_request =
        store_set_request(Some("bar".to_owned()), Some("baz".to_owned())).expect("the call passes");
    let set_reply = store.set(set_request);
    let set_http = store_set_response(set_reply);
    assert_eq!(set_http.status, 200);
    assert_eq!(set_http.body, "{}");

    let get_request = store_get_request(Some("bar".to_owned())).expect("the call passes");
    let get_reply = store.get(get_request);
    let get_http = store_get_response(get_reply);
    assert_eq!(get_http.status, 200);
    assert_eq!(get_http.body, "{\"value\":\"baz\"}");
}

#[test]
fn get_before_any_set_end_to_end() {
    let store = KeyValueStore::new();

    let request = store_get_request(Some("foo".to_owned())).expect("the call passes");
    let reply = store.get(request);
    let http = store_get_response(reply);
    assert_eq!(http.status, 200);
    assert_eq!(http.body, "{\"value\":null}");
}

#[test]
fn empty_key_end_to_end() {
    let response = store_get_request(Some("".to_owned())).expect_err("must be rejected");
    assert_eq!(response.status, 400);
    assert_eq!(response.body, "{\"error\":\"key argument must be provided\"}");
}
