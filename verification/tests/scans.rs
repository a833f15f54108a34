//! Scan registration replies, the deregistration body, and scan
//! persistence.
use ergo_node_interface::document::JsonValue;
use ergo_node_interface::node_interface::{NodeError, NodeInterface};
use ergo_node_interface::scanning::{
    generate_deregister_scan_json,
    parse_scans,
    serialize_scans,
    Scan,
};
use ergo_node_interface::types::ScanId;

fn node() -> NodeInterface {
    NodeInterface::new("hello", "0.0.0.0", "9053")
}

fn obj(fields: Vec<(&str, JsonValue)>) -> JsonValue {
    JsonValue::Obj(fields.into_iter().map(|(k, v)| (k.to_string(), v)).collect())
}

#[test]
fn test_generate_deregister_scan_json() {
    let scan_id = ScanId::from(100);
    assert_eq!(
        "{\n  \"scanId\": 100\n}",
        &generate_deregister_scan_json(scan_id)
    );
}

#[test]
fn register_body_is_the_serialized_rule() {
    let ni = node();
    let rule = obj(vec![
        ("scanName", JsonValue::Str("my scan".to_string())),
        (
            "trackingRule",
            obj(vec![
                ("predicate", JsonValue::Str("containsAsset".to_string())),
                ("assetId", JsonValue::Str("ab\"cd\\ef\n".to_string())),
            ]),
        ),
    ]);
    let body = ni.register_scan_body(&rule);
    assert_eq!(
        body,
        "{\"scanName\":\"my scan\",\"trackingRule\":{\"predicate\":\"containsAsset\",\"assetId\":\"ab\\\"cd\\\\ef\\n\"}}"
    );
    // the body must be real JSON again
    let reparsed = json::parse(&body).unwrap();
    assert_eq!(reparsed["trackingRule"]["assetId"], "ab\"cd\\ef\n");
}

#[test]
fn register_scan_reads_assigned_id() {
    let ni = node();
    let response = obj(vec![("scanId", JsonValue::Num(100))]);
    let id = ni.register_scan(&response).unwrap();
    assert_eq!(id, ScanId::from(100));
}

#[test]
fn register_scan_error_reply_is_bad_request() {
    let ni = node();
    let response = obj(vec![("error", JsonValue::Str("bad rule".to_string()))]);
    let r = ni.register_scan(&response);
    assert!(matches!(r, Err(NodeError::BadRequest(m)) if m == "bad rule"));
}

#[test]
fn register_scan_missing_id_is_invalid() {
    let ni = node();
    let response = obj(vec![("other", JsonValue::Num(3))]);
    let r = ni.register_scan(&response);
    assert!(matches!(r, Err(NodeError::InvalidScanId(m)) if m == "null"));
}

#[test]
fn deregister_scan_echoes_id() {
    let ni = node();
    let response = obj(vec![("scanId", JsonValue::Num(7))]);
    let id = ni.deregister_scan(&response).unwrap();
    assert_eq!(id, ScanId::from(7));
}

#[test]
fn scan_id_parses_decimal_text() {
    assert_eq!(ScanId::parse("42").unwrap(), ScanId(42));
    assert!(matches!(
        ScanId::parse("four"),
        Err(NodeError::InvalidScanId(m)) if m == "four"
    ));
    assert!(matches!(
        ScanId::parse("null"),
        Err(NodeError::InvalidScanId(m)) if m == "null"
    ));
    assert!(matches!(ScanId::parse(""), Err(NodeError::InvalidScanId(_))));
}

#[test]
fn scans_round_trip_through_persistence() {
    let ni = node();
    let scans = vec![
        Scan { name: "oracle pool".to_string(), id: "7".to_string(), node: ni.clone() },
        Scan { name: "tracker".to_string(), id: "12".to_string(), node: ni.clone() },
    ];
    let text = serialize_scans(&scans).unwrap();
    let reloaded = parse_scans(&text, &ni).unwrap();
    assert_eq!(reloaded.len(), 2);
    assert_eq!(reloaded[0].name, "oracle pool");
    assert_eq!(reloaded[0].id, "7");
    assert_eq!(reloaded[1].name, "tracker");
    assert_eq!(reloaded[1].id, "12");
}

#[test]
fn null_sentinel_id_fails_persistence() {
    let ni = node();
    let scans = vec![
        Scan { name: "good".to_string(), id: "3".to_string(), node: ni.clone() },
        Scan { name: "broken".to_string(), id: "null".to_string(), node: ni },
    ];
    let r = serialize_scans(&scans);
    assert!(matches!(
        r,
        Err(NodeError::FailedRegisteringScan(m)) if m == "broken"
    ));
}

#[test]
fn add_box_body_carries_the_scan_id_and_the_box() {
    let ni = node();
    let box_doc = obj(vec![
        ("boxId", JsonValue::Str("e56847ed19b3dc6b72828fcfb992fdf7310828cf291221269b7ffc72fd66706e".to_string())),
        ("value", JsonValue::Num(67500000000)),
        ("ergoTree", JsonValue::Str("100204a00b08cd021dde34603426402615658f1d970cfa7c7bd92ac81a8b16eeebff264d59ce4604ea02d192a39a8cc7a70173007301".to_string())),
        ("assets", JsonValue::Arr(vec![])),
        ("creationHeight", JsonValue::Num(284761)),
        ("additionalRegisters", JsonValue::Obj(vec![])),
        ("transactionId", JsonValue::Str("9148408c04c2e38a6402a7950d6157730fa7d49e9ab3b9cadec481d7769918e9".to_string())),
        ("index", JsonValue::Num(1)),
    ]);
    let b = ni.box_from_id(&box_doc).unwrap();
    let body = ni.add_box_to_scan_body(ScanId::from(55), &b).unwrap();
    assert!(body.starts_with("{\"scanIds\":[55],\"box\":\""));
    assert!(body.contains("boxId"));
    assert!(body.ends_with("\"}"));

    let unfetched = ergo_node_interface::boxes::WalletBox::new("xyz".to_string(), 1);
    let r = ni.add_box_to_scan_body(ScanId::from(55), &unfetched);
    assert!(matches!(r, Err(NodeError::FailedParsingBox(m)) if m == "xyz"));
}

#[test]
fn add_box_reply_confirms_or_rejects() {
    let ni = node();
    let ok_reply = obj(vec![("ok", JsonValue::Bool(true))]);
    assert!(ni.add_box_to_scan(&ok_reply).is_ok());
    let err_reply = obj(vec![("error", JsonValue::Str("no such scan".to_string()))]);
    assert!(matches!(
        ni.add_box_to_scan(&err_reply),
        Err(NodeError::BadRequest(m)) if m == "no such scan"
    ));
}

#[test]
fn newline_in_a_scan_name_fails_persistence() {
    let ni = node();
    let scans = vec![Scan {
        name: "two\nlines".to_string(),
        id: "3".to_string(),
        node: ni.clone(),
    }];
    let r = serialize_scans(&scans);
    assert!(matches!(r, Err(NodeError::Other(m)) if m == "two\nlines"));
    let scans2 = vec![Scan {
        name: "fine".to_string(),
        id: "3,4".to_string(),
        node: ni,
    }];
    let r2 = serialize_scans(&scans2);
    assert!(matches!(r2, Err(NodeError::Other(m)) if m == "fine"));
}

#[test]
fn malformed_persisted_text_is_rejected() {
    let ni = node();
    let r = parse_scans("no comma here\n", &ni);
    assert!(matches!(r, Err(NodeError::Other(_))));
    let r2 = parse_scans("3,name without newline", &ni);
    assert!(matches!(r2, Err(NodeError::Other(_))));
}
