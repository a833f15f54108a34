//! The document serializer and the error texts.
use ergo_node_interface::document::JsonValue;
use ergo_node_interface::node_interface::{NodeError, NodeInterface};

fn obj(fields: Vec<(&str, JsonValue)>) -> JsonValue {
    JsonValue::Obj(fields.into_iter().map(|(k, v)| (k.to_string(), v)).collect())
}

#[test]
fn dump_covers_every_document_shape() {
    let doc = obj(vec![
        ("a", JsonValue::Bool(true)),
        ("b", JsonValue::Null),
        ("c", JsonValue::Arr(vec![JsonValue::Num(1), JsonValue::Num(2)])),
        ("d", JsonValue::Str("x".to_string())),
        ("e", JsonValue::Bool(false)),
        ("f", JsonValue::Obj(vec![])),
        ("g", JsonValue::Arr(vec![])),
    ]);
    assert_eq!(
        doc.dump(),
        "{\"a\":true,\"b\":null,\"c\":[1,2],\"d\":\"x\",\"e\":false,\"f\":{},\"g\":[]}"
    );
}

#[test]
fn dump_escapes_string_contents() {
    let doc = JsonValue::Str("quote \" slash \\ tab \t newline \n bell \u{7}".to_string());
    assert_eq!(
        doc.dump(),
        "\"quote \\\" slash \\\\ tab \\t newline \\n bell \\u0007\""
    );
}

#[test]
fn display_leaves_strings_bare() {
    assert_eq!(JsonValue::Str("plain".to_string()).display(), "plain");
    assert_eq!(JsonValue::Null.display(), "null");
    assert_eq!(JsonValue::Num(17).display(), "17");
}

#[test]
fn error_messages_name_the_failure() {
    assert_eq!(
        NodeError::BadRequest("no".to_string()).message(),
        "The node rejected the request you provided.\nNode Response: no"
    );
    assert_eq!(
        NodeError::InsufficientErgsBalance.message(),
        "An insufficient number of Ergs were found."
    );
    assert_eq!(
        NodeError::FailedRegisteringScan("s".to_string()).message(),
        "Failed registering UTXO-set scan with the node: s"
    );
}

#[test]
fn wallet_addresses_are_trimmed() {
    let ni = NodeInterface::new("hello", "0.0.0.0", "9053");
    let body = "[\n  \"  9addr \",\n  \"ignored\",\n  \"\t3addr\"\n]";
    let addrs = ni.wallet_addresses(body).unwrap();
    assert_eq!(addrs, vec!["9addr".to_string(), "3addr".to_string()]);
}

#[test]
fn wallet_addresses_trim_all_unicode_whitespace() {
    let ni = NodeInterface::new("hello", "0.0.0.0", "9053");
    // form feed, vertical tab, no-break space and em space all count as
    // whitespace, as standard trimming has it
    let body = "\"\u{c}9one\u{b}\" \"\u{a0}3two\u{2003}\"";
    let addrs = ni.wallet_addresses(body).unwrap();
    assert_eq!(addrs, vec!["9one".to_string(), "3two".to_string()]);
    assert_eq!(addrs, body.split('"').map(str::trim).filter(|t| {
        t.starts_with('9') || t.starts_with('3')
    }).map(str::to_string).collect::<Vec<_>>());
}
