use jmap_client::auth::{base64_encode, basic_auth_header};
use jmap_client::value::Value;

fn s(x: &str) -> Value {
    Value::Str(x.to_string())
}

fn obj(entries: Vec<(&str, Value)>) -> Value {
    Value::Object(entries.into_iter().map(|(k, v)| (k.to_string(), v)).collect())
}

#[test]
fn base64_pads_one_and_two_byte_tails() {
    assert_eq!(base64_encode(b""), "");
    assert_eq!(base64_encode(b"a"), "YQ==");
    assert_eq!(base64_encode(b"ab"), "YWI=");
    assert_eq!(base64_encode(b"abc"), "YWJj");
    assert_eq!(base64_encode(b"user:pass"), "dXNlcjpwYXNz");
    assert_eq!(base64_encode(&[0xff, 0xfe, 0x00, 0x3f]), "//4APw==");
}

#[test]
fn basic_auth_header_encodes_user_and_password() {
    assert_eq!(basic_auth_header("user", "pass"), "Basic dXNlcjpwYXNz");
    assert_eq!(basic_auth_header("", ""), "Basic Og==");
}

#[test]
fn value_get_reads_first_entry_under_key() {
    let v = obj(vec![("a", s("1")), ("b", Value::UInt(2)), ("a", s("3"))]);
    assert_eq!(v.get("a"), Some(&s("1")));
    assert_eq!(v.get("b").and_then(|x| x.as_u64()), Some(2));
    assert_eq!(v.get("c"), None);
    assert_eq!(s("x").get("a"), None);
    assert_eq!(Value::Int(-3).as_u64(), None);
    assert_eq!(Value::Int(3).as_u64(), Some(3));
}

#[test]
fn value_copy_is_node_for_node() {
    let v = obj(vec![
        ("list", Value::Array(vec![s("x"), Value::Null, Value::Bool(true)])),
        ("ref", Value::Ref("c1".to_string())),
        ("n", Value::Int(-7)),
    ]);
    assert_eq!(v.copy(), v);
}
