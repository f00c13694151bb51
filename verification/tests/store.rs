use kv_store::messages::{GetRequest, GetResponse, SetRequest};
use kv_store::store::{Config, KeyValueStore};

#[test]
fn default_config() {
    let config = Config::new_empty();
    assert_eq!(config.address, "[::1]:50051");
}

#[test]
fn explicit_config() {
    let config = Config::new("127.0.0.1:4000".to_owned());
    assert_eq!(config.address, "127.0.0.1:4000");
}

#[test]
fn empty_get() {
    let store = KeyValueStore::new();

    let response = store.get(GetRequest {
        key: "foo".to_owned(),
    });

    assert_eq!(response, GetResponse { value: None });
}

#[test]
fn nonempty_get() {
    let mut store = KeyValueStore::new();

    store.set(SetRequest {
        key: "bar".to_owned(),
        value: "baz".to_owned(),
    });

    let get_response = store.get(GetRequest {
        key: "bar".to_owned(),
    });

    assert_eq!(
        get_response,
        GetResponse {
            value: Some("baz".to_owned())
        }
    );
}

#[test]
fn unset_key_stays_absent_beside_other_sets() {
    let mut store = KeyValueStore::new();
    store.set(SetRequest {
        key: "one".to_owned(),
        value: "1".to_owned(),
    });
    store.set(SetRequest {
        key: "two".to_owned(),
        value: "2".to_owned(),
    });

    let response = store.get(GetRequest {
        key: "three".to_owned(),
    });

    assert_eq!(response, GetResponse { value: None });
}

#[test]
fn last_set_wins() {
    let mut store = KeyValueStore::new();
    store.set(SetRequest {
        key: "k".to_owned(),
        value: "first".to_owned(),
    });
    store.set(SetRequest {
        key: "k".to_owned(),
        value: "second".to_owned(),
    });

    let response = store.get(GetRequest {
        key: "k".to_owned(),
    });

    assert_eq!(
        response,
        GetResponse {
            value: Some("second".to_owned())
        }
    );
}

#[test]
fn repeated_set_is_idempotent() {
    let mut store = KeyValueStore::new();
    for _ in 0..3 {
        store.set(SetRequest {
            key: "k".to_owned(),
            value: "v".to_owned(),
        });
    }

    let response = store.get(GetRequest {
        key: "k".to_owned(),
    });
    assert_eq!(
        response,
        GetResponse {
            value: Some("v".to_owned())
        }
    );

    let again = store.get(GetRequest {
        key: "k".to_owned(),
    });
    assert_eq!(again, response);
}

#[test]
fn distinct_sets_all_visible() {
    let mut store = KeyValueStore::new();
    let n = 16;
    for i in 0..n {
        store.set(SetRequest {
            key: format!("key-{i}"),
            value: format!("value-{i}"),
        });
    }

    for i in 0..n {
        let response = store.get(GetRequest {
            key: format!("key-{i}"),
        });
        assert_eq!(
            response,
            GetResponse {
                value: Some(format!("value-{i}"))
            }
        );
    }
}

#[test]
fn empty_key_and_value_are_storable_at_this_layer() {
    let mut store = KeyValueStore::new();
    store.set(SetRequest {
        key: "".to_owned(),
        value: "".to_owned(),
    });

    let response = store.get(GetRequest { key: "".to_owned() });
    assert_eq!(
        response,
        GetResponse {
            value: Some("".to_owned())
        }
    );
}
