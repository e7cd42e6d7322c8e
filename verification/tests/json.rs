use serde_json::Value;
use talbot::json::{id_at, str_at};

fn json(text: &str) -> Value {
    serde_json::from_str(text).unwrap()
}

#[test]
fn pointers_lead_through_objects_and_lists() {
    let value = json(r#"{"a":{"b":[10,{"c":"text"}],"0":-3},"a/b":{"~":[1,2],"m~n":5,"~1":6},"":7}"#);
    assert_eq!(id_at(&value, "/a/b/0"), Some(10));
    assert_eq!(str_at(&value, "/a/b/1/c"), Some("text"));
    assert_eq!(id_at(&value, "/a/0"), Some(-3));
    assert_eq!(id_at(&value, "/a~1b/~0/1"), Some(2));
    assert_eq!(id_at(&value, "/a~1b/m~n"), Some(5));
    assert_eq!(id_at(&value, "/a~1b/~01"), Some(6));
    assert_eq!(id_at(&value, "/"), Some(7));
    assert_eq!(id_at(&json("9"), ""), Some(9));
}

#[test]
fn pointers_can_lead_nowhere() {
    let value = json(r#"{"a":{"b":[10]},"t":"5"}"#);
    for pointer in ["a", "/b", "/a/b/1", "/a/b/00", "/a/b/+0", "/a/b/-", "/a/b/0/x", "/a/", "/t/0"] {
        assert_eq!(id_at(&value, pointer), None);
        assert_eq!(str_at(&value, pointer), None);
    }
    assert_eq!(id_at(&value, "/t"), None);
    assert_eq!(str_at(&value, "/a/b/0"), None);
}

#[test]
fn only_integers_that_fit_are_ids() {
    for (text, id) in [
        ("-9223372036854775808", Some(i64::MIN)),
        ("9223372036854775807", Some(i64::MAX)),
        ("9223372036854775808", None),
        ("1.0", None),
        ("1e2", None),
        ("true", None),
        ("null", None),
    ] {
        assert_eq!(id_at(&json(text), ""), id);
    }
}
