//! Wallet and info replies, endpoint paths, and the unspent-box listing.
use ergo_node_interface::document::JsonValue;
use ergo_node_interface::node_interface::{
    is_mainnet_address,
    is_testnet_address,
    NodeError,
    NodeInterface,
};

fn node() -> NodeInterface {
    NodeInterface::new("hello", "0.0.0.0", "9053")
}

fn to_doc(v: &json::JsonValue) -> JsonValue {
    match v {
        json::JsonValue::Null => JsonValue::Null,
        json::JsonValue::Boolean(b) => JsonValue::Bool(*b),
        json::JsonValue::Number(_) => JsonValue::Num(v.as_u64().expect("number out of range")),
        json::JsonValue::Short(s) => JsonValue::Str(s.to_string()),
        json::JsonValue::String(s) => JsonValue::Str(s.clone()),
        json::JsonValue::Array(items) => JsonValue::Arr(items.iter().map(to_doc).collect()),
        json::JsonValue::Object(_) => JsonValue::Obj(
            v.entries().map(|(k, val)| (k.to_string(), to_doc(val))).collect(),
        ),
    }
}

fn parse_doc(text: &str) -> JsonValue {
    to_doc(&json::parse(text).expect("test document must parse"))
}

#[test]
fn node_url_is_assembled_from_parts() {
    let ni = node();
    assert_eq!(ni.node_url(), "http://0.0.0.0:9053");
}

#[test]
fn address_prefixes_decide_the_network() {
    assert!(is_mainnet_address("9gmNsqrqdSppLUBqg2UzREmmivgqh1r3jmNcLAc53hk3YCvAGWE"));
    assert!(!is_mainnet_address("3WvsT2Gm4EpsM9Pg18PdY6XyhNNMqXDsvJTbbf6ihLvAmSb7u5RN"));
    assert!(is_testnet_address("3WvsT2Gm4EpsM9Pg18PdY6XyhNNMqXDsvJTbbf6ihLvAmSb7u5RN"));
    assert!(!is_testnet_address(""));
}

#[test]
fn wallet_addresses_are_quoted_segments_with_prefix() {
    let ni = node();
    let body = "[\"9gmNsqrqdSppLUBqg2UzREmmivgqh1r3jmNcLAc53hk3YCvAGWE\", \"3WvsT2Gm4EpsM9Pg18PdY6XyhNNMqXDsvJTbbf6ihLvAmSb7u5RN\"]";
    let addrs = ni.wallet_addresses(body).unwrap();
    assert_eq!(addrs.len(), 2);
    assert_eq!(addrs[0], "9gmNsqrqdSppLUBqg2UzREmmivgqh1r3jmNcLAc53hk3YCvAGWE");
    assert_eq!(addrs[1], "3WvsT2Gm4EpsM9Pg18PdY6XyhNNMqXDsvJTbbf6ihLvAmSb7u5RN");
}

#[test]
fn empty_wallet_has_no_addresses() {
    let ni = node();
    let r = ni.wallet_addresses("[]");
    assert!(matches!(r, Err(NodeError::NoAddressesInWallet)));
}

#[test]
fn balance_is_read_from_the_reply() {
    let ni = node();
    let doc = parse_doc(r#"{"balance": 1500}"#);
    assert_eq!(ni.wallet_nano_ergs_balance(&doc).unwrap(), 1500);
}

#[test]
fn missing_balance_means_syncing() {
    let ni = node();
    let doc = parse_doc(r#"{"balance": null}"#);
    assert!(matches!(
        ni.wallet_nano_ergs_balance(&doc),
        Err(NodeError::NodeSyncing)
    ));
    let doc2 = parse_doc(r#"{"other": 1}"#);
    assert!(matches!(
        ni.wallet_nano_ergs_balance(&doc2),
        Err(NodeError::NodeSyncing)
    ));
}

#[test]
fn non_numeric_balance_cannot_be_read() {
    let ni = node();
    let doc = parse_doc(r#"{"balance": "soon"}"#);
    assert!(matches!(
        ni.wallet_nano_ergs_balance(&doc),
        Err(NodeError::FailedParsingNodeResponse(_))
    ));
}

#[test]
fn block_height_is_read_from_the_info_reply() {
    let ni = node();
    let doc = parse_doc(r#"{"fullHeight": 1000144}"#);
    assert_eq!(ni.current_block_height(&doc).unwrap(), 1000144);
    let syncing = parse_doc(r#"{"fullHeight": null}"#);
    assert!(matches!(
        ni.current_block_height(&syncing),
        Err(NodeError::NodeSyncing)
    ));
}

#[test]
fn recommended_fee_is_the_bare_reply() {
    let ni = node();
    assert_eq!(ni.get_recommended_fee(&JsonValue::Num(1100000)).unwrap(), 1100000);
    assert!(matches!(
        ni.get_recommended_fee(&JsonValue::Str("x".to_string())),
        Err(NodeError::FailedParsingNodeResponse(_))
    ));
}

#[test]
fn fee_endpoint_carries_both_parameters() {
    let ni = node();
    assert_eq!(
        ni.get_recommended_fee_endpoint(640, 10),
        "/transactions/getFee?bytes=640&waitTime=10"
    );
}

#[test]
fn script_conversion_replies_are_field_reads() {
    let ni = node();
    let doc = parse_doc(r#"{"tree": "100204a0"}"#);
    assert_eq!(ni.p2s_to_tree(&doc).unwrap(), "100204a0");
    let doc2 = parse_doc(r#"{"raw": "0327e657"}"#);
    assert_eq!(ni.p2pk_to_raw(&doc2).unwrap(), "0327e657");
    assert_eq!(ni.p2pk_to_raw_for_register(&doc2).unwrap(), "070327e657");
    let doc3 = parse_doc(r#"{"bytes": "aabb"}"#);
    assert_eq!(ni.p2s_to_bytes(&doc3).unwrap(), "aabb");
    assert_eq!(ni.serialized_box_from_id(&doc3).unwrap(), "aabb");
    let doc4 = parse_doc(r#"{"address": "9gmN"}"#);
    assert_eq!(ni.raw_to_p2pk(&doc4).unwrap(), "9gmN");
    assert_eq!(ni.raw_from_register_to_p2pk(&doc4).unwrap(), "9gmN");
}

#[test]
fn conversion_endpoints_embed_their_argument() {
    let ni = node();
    assert_eq!(ni.p2s_to_tree_endpoint("addr"), "/script/addressToTree/addr");
    assert_eq!(ni.p2s_to_bytes_endpoint("addr"), "/script/addressToBytes/addr");
    assert_eq!(ni.p2pk_to_raw_endpoint("addr"), "/utils/addressToRaw/addr");
    assert_eq!(ni.raw_to_p2pk_endpoint("raw"), "/utils/rawToAddress/raw");
    assert_eq!(
        ni.raw_from_register_to_p2pk_endpoint("07deadbeef"),
        "/utils/rawToAddress/deadbeef"
    );
    assert_eq!(ni.serialized_box_from_id_endpoint("abc"), "/utxo/byIdBinary/abc");
    assert_eq!(ni.box_from_id_endpoint("abc"), "/utxo/byId/abc");
}

#[test]
fn wallet_status_reads_all_fields() {
    let ni = node();
    let doc = parse_doc(
        r#"{"isInitialized": true, "isUnlocked": false, "changeAddress": "9gmN", "walletHeight": 251, "error": null}"#,
    );
    let w = ni.wallet_status(&doc).unwrap();
    assert!(w.initialized);
    assert!(!w.unlocked);
    assert_eq!(w.change_address.as_deref(), Some("9gmN"));
    assert_eq!(w.height, 251);
    assert!(w.error.is_none());
    let bad = parse_doc(r#"{"isInitialized": "yes"}"#);
    assert!(matches!(
        ni.wallet_status(&bad),
        Err(NodeError::FailedParsingWalletStatus(_))
    ));
}

#[test]
fn unspent_boxes_page_until_the_first_gap() {
    let ni = node();
    let doc = parse_doc(
        r#"[
            {"box": {"boxId": "e56847ed19b3dc6b72828fcfb992fdf7310828cf291221269b7ffc72fd66706e",
                     "value": 67500000000,
                     "ergoTree": "100204a00b08cd021dde34603426402615658f1d970cfa7c7bd92ac81a8b16eeebff264d59ce4604ea02d192a39a8cc7a70173007301",
                     "assets": [], "creationHeight": 284761, "additionalRegisters": {},
                     "transactionId": "9148408c04c2e38a6402a7950d6157730fa7d49e9ab3b9cadec481d7769918e9",
                     "index": 1}},
            {"box": {"not": "a box"}},
            {"box": null},
            {"box": {"boxId": "ignored", "value": 1}}
        ]"#,
    );
    let boxes = ni.unspent_boxes(&doc).unwrap();
    assert_eq!(boxes.len(), 1);
    assert_eq!(
        boxes[0].box_id,
        "e56847ed19b3dc6b72828fcfb992fdf7310828cf291221269b7ffc72fd66706e"
    );
    assert_eq!(boxes[0].value, 67500000000);
}

#[test]
fn scan_boxes_fail_on_one_malformed_entry() {
    let ni = node();
    let doc = parse_doc(r#"[{"box": {"not": "a box"}}]"#);
    let r = ni.scan_boxes(&doc);
    assert!(matches!(r, Err(NodeError::FailedParsingBox(_))));
}

#[test]
fn scan_boxes_read_well_formed_entries() {
    let ni = node();
    let doc = parse_doc(
        r#"[
            {"box": {"boxId": "e56847ed19b3dc6b72828fcfb992fdf7310828cf291221269b7ffc72fd66706e",
                     "value": 67500000000,
                     "ergoTree": "100204a00b08cd021dde34603426402615658f1d970cfa7c7bd92ac81a8b16eeebff264d59ce4604ea02d192a39a8cc7a70173007301",
                     "assets": [], "creationHeight": 284761, "additionalRegisters": {},
                     "transactionId": "9148408c04c2e38a6402a7950d6157730fa7d49e9ab3b9cadec481d7769918e9",
                     "index": 1}}
        ]"#,
    );
    let boxes = ni.scan_boxes(&doc).unwrap();
    assert_eq!(boxes.len(), 1);
    assert_eq!(boxes[0].value, 67500000000);
}

#[test]
fn scan_boxes_accept_the_id_alias() {
    let ni = node();
    let doc = parse_doc(
        r#"[
            {"box": {"id": "e56847ed19b3dc6b72828fcfb992fdf7310828cf291221269b7ffc72fd66706e",
                     "value": 67500000000,
                     "ergoTree": "100204a00b08cd021dde34603426402615658f1d970cfa7c7bd92ac81a8b16eeebff264d59ce4604ea02d192a39a8cc7a70173007301",
                     "assets": [], "creationHeight": 284761, "additionalRegisters": {},
                     "transactionId": "9148408c04c2e38a6402a7950d6157730fa7d49e9ab3b9cadec481d7769918e9",
                     "index": 1}}
        ]"#,
    );
    let boxes = ni.scan_boxes(&doc).unwrap();
    assert_eq!(boxes.len(), 1);
    assert_eq!(
        boxes[0].box_id,
        "e56847ed19b3dc6b72828fcfb992fdf7310828cf291221269b7ffc72fd66706e"
    );
}

#[test]
fn unspent_boxes_with_min_total_selects_by_value() {
    let ni = node();
    let doc = parse_doc(
        r#"[
            {"box": {"boxId": "e56847ed19b3dc6b72828fcfb992fdf7310828cf291221269b7ffc72fd66706e",
                     "value": 67500000000,
                     "ergoTree": "100204a00b08cd021dde34603426402615658f1d970cfa7c7bd92ac81a8b16eeebff264d59ce4604ea02d192a39a8cc7a70173007301",
                     "assets": [], "creationHeight": 284761, "additionalRegisters": {},
                     "transactionId": "9148408c04c2e38a6402a7950d6157730fa7d49e9ab3b9cadec481d7769918e9",
                     "index": 1}}
        ]"#,
    );
    let sel = ni.unspent_boxes_with_min_total(1000, &doc).unwrap();
    assert_eq!(sel.len(), 1);
    let r = ni.unspent_boxes_with_min_total(99999999999, &doc);
    assert!(matches!(r, Err(NodeError::InsufficientErgsBalance)));
    let by_age = ni.unspent_boxes_with_min_total_by_age(1000, &doc).unwrap();
    assert_eq!(by_age.len(), 1);
}
