//! The transaction pipeline: box documents through signing bodies and
//! submission replies, held against `ergo-lib` itself.
use ergo_lib::ergotree_ir::chain::ergo_box::ErgoBox;
use ergo_lib::ergotree_ir::serialization::SigmaSerializable;
use ergo_node_interface::document::JsonValue;
use ergo_node_interface::node_interface::{NodeError, NodeInterface};
use ergo_node_interface::transactions::{Transaction, TxId, UnsignedTransaction};

fn node() -> NodeInterface {
    NodeInterface::new("hello", "0.0.0.0", "9053")
}

/// Decode raw JSON text into the crate's document model, as the embedding
/// application does at the transport boundary.
fn to_doc(v: &json::JsonValue) -> JsonValue {
    match v {
        json::JsonValue::Null => JsonValue::Null,
        json::JsonValue::Boolean(b) => JsonValue::Bool(*b),
        json::JsonValue::Number(_) => JsonValue::Num(v.as_u64().expect("number out of range")),
        json::JsonValue::Short(s) => JsonValue::Str(s.to_string()),
        json::JsonValue::String(s) => JsonValue::Str(s.clone()),
        json::JsonValue::Array(items) => JsonValue::Arr(items.iter().map(to_doc).collect()),
        json::JsonValue::Object(_) => JsonValue::Obj(
            v.entries().map(|(k, val)| (k.to_string(), to_doc(val))).collect(),
        ),
    }
}

fn parse_doc(text: &str) -> JsonValue {
    to_doc(&json::parse(text).expect("test document must parse"))
}

const BOX_JSON: &str = r#"{
  "boxId": "e56847ed19b3dc6b72828fcfb992fdf7310828cf291221269b7ffc72fd66706e",
  "value": 67500000000,
  "ergoTree": "100204a00b08cd021dde34603426402615658f1d970cfa7c7bd92ac81a8b16eeebff264d59ce4604ea02d192a39a8cc7a70173007301",
  "assets": [],
  "creationHeight": 284761,
  "additionalRegisters": {},
  "transactionId": "9148408c04c2e38a6402a7950d6157730fa7d49e9ab3b9cadec481d7769918e9",
  "index": 1
}"#;

const TX_ID_A: &str = "aaaaaaaaaaaaaaaaaaaaaaaaaaaaaaaaaaaaaaaaaaaaaaaaaaaaaaaaaaaaaaaa";
const TX_ID_B: &str = "bbbbbbbbbbbbbbbbbbbbbbbbbbbbbbbbbbbbbbbbbbbbbbbbbbbbbbbbbbbbbbbb";

#[test]
fn tx_id_accepts_64_hex_digits() {
    let id = TxId::parse(TX_ID_A).unwrap();
    assert_eq!(id.0, TX_ID_A);
    assert!(matches!(
        TxId::parse("abc"),
        Err(NodeError::FailedParsingNodeResponse(_))
    ));
    assert!(matches!(
        TxId::parse(&"g".repeat(64)),
        Err(NodeError::FailedParsingNodeResponse(_))
    ));
}

#[test]
fn submit_reply_is_the_new_tx_id() {
    let ni = node();
    let response = JsonValue::Str(TX_ID_A.to_string());
    let id = ni.submit_json_transaction(&response).unwrap();
    assert_eq!(id.0, TX_ID_A);
}

#[test]
fn submit_reply_with_detail_is_rejected() {
    let ni = node();
    let response = JsonValue::Obj(vec![(
        "detail".to_string(),
        JsonValue::Str("bad transaction".to_string()),
    )]);
    let r = ni.submit_json_transaction(&response);
    assert!(matches!(r, Err(NodeError::BadRequest(m)) if m == "bad transaction"));
}

#[test]
fn submitted_id_mismatch_is_surfaced() {
    let ni = node();
    let tx = Transaction { tx_id: TxId(TX_ID_A.to_string()), doc: JsonValue::Null };
    let response = JsonValue::Str(TX_ID_B.to_string());
    let r = ni.submit_transaction(&tx, &response);
    assert!(matches!(r, Err(NodeError::Other(_))));
}

#[test]
fn submitted_id_match_is_accepted() {
    let ni = node();
    let tx = Transaction { tx_id: TxId(TX_ID_A.to_string()), doc: JsonValue::Null };
    let response = JsonValue::Str(TX_ID_A.to_string());
    let id = ni.submit_transaction(&tx, &response).unwrap();
    assert_eq!(id.0, TX_ID_A);
}

#[test]
fn sign_body_wraps_the_unsigned_document() {
    let ni = node();
    let unsigned = JsonValue::Obj(vec![("x".to_string(), JsonValue::Num(1))]);
    let body = ni.sign_json_transaction_body(&unsigned);
    assert_eq!(body, "{\"tx\":{\"x\":1}}");
}

#[test]
fn sign_reply_with_detail_is_rejected() {
    let ni = node();
    let response = JsonValue::Obj(vec![(
        "detail".to_string(),
        JsonValue::Str("no wallet".to_string()),
    )]);
    let r = ni.sign_json_transaction(response);
    assert!(matches!(r, Err(NodeError::BadRequest(m)) if m == "no wallet"));
}

const SIGNED_TX_JSON: &str = r#"{
  "id": "0e6acf3f18b95bdc5bb1b060baa1eafe53bd89fb08b0e86d6cc00fbdd9e43189",
  "inputs": [
    {
      "boxId": "f353ae1b2027e40ea318e7a2673ea4bbaa281b7acee518a0994c5cbdefb05f55",
      "spendingProof": { "proofBytes": "", "extension": {} }
    },
    {
      "boxId": "56111b039b86f71004b768d2e8b4579f1d79e28e7a617fd5add57a5239498c26",
      "spendingProof": {
        "proofBytes": "6542a8b8914b103dcbc36d77da3bd58e42ca35755a5190b507764b0bae330b924ce86acfa1b5f9bfc8216c3c4628738e8274d902bea06b48",
        "extension": {}
      }
    }
  ],
  "dataInputs": [
    { "boxId": "e26d41ed030a30cd563681e72f0b9c07825ac983f8c253a87a43c1da21958ece" }
  ],
  "outputs": [
    {
      "boxId": "55be517150fcb7f0f1661ad3ab30f1ac62084b83ad6aa772579bc06cbb52832e",
      "value": 1000000,
      "ergoTree": "100604000400050004000e20b662db51cf2dc39f110a021c2a31c74f0a1a18ffffbf73e8a051a7b8c0f09ebc0e2079974b2314c531e62776e6bc4babff35b37b178cebf0976fc0f416ff34ddbc4fd803d601b2a5730000d602e4c6a70407d603b2db6501fe730100ea02d1ededededed93e4c672010407720293e4c67201050ec5720391e4c672010605730293c27201c2a793db63087201db6308a7ed938cb2db6308720373030001730493cbc272037305cd7202",
      "assets": [
        {
          "tokenId": "12caaacb51c89646fac9a3786eb98d0113bd57d68223ccc11754a4f67281daed",
          "amount": 1
        }
      ],
      "creationHeight": 299218,
      "additionalRegisters": {
        "R4": "070327e65711a59378c59359c3e1d0f7abe906479eccb76094e50fe79d743ccc15e6",
        "R5": "0e20e26d41ed030a30cd563681e72f0b9c07825ac983f8c253a87a43c1da21958ece",
        "R6": "05feaff5de0f"
      },
      "transactionId": "0e6acf3f18b95bdc5bb1b060baa1eafe53bd89fb08b0e86d6cc00fbdd9e43189",
      "index": 0
    },
    {
      "boxId": "fa4a484c855d32a60987a4ddcf1c506aa6bab1c4cb0293c2d5ff35fcd11f2c7b",
      "value": 1000000,
      "ergoTree": "1005040004000e36100204a00b08cd0279be667ef9dcbbac55a06295ce870b07029bfcdb2dce28d959f2815b16f81798ea02d192a39a8cc7a701730073011001020402d19683030193a38cc7b2a57300000193c2b2a57301007473027303830108cdeeac93b1a57304",
      "assets": [],
      "creationHeight": 299218,
      "additionalRegisters": {},
      "transactionId": "0e6acf3f18b95bdc5bb1b060baa1eafe53bd89fb08b0e86d6cc00fbdd9e43189",
      "index": 1
    },
    {
      "boxId": "3dee27d0dfb193fd6a263cf2b5b58cab99cb640d1443cd1ce63d909ad3a54197",
      "value": 44516500000,
      "ergoTree": "0008cd0327e65711a59378c59359c3e1d0f7abe906479eccb76094e50fe79d743ccc15e6",
      "assets": [],
      "creationHeight": 299218,
      "additionalRegisters": {},
      "transactionId": "0e6acf3f18b95bdc5bb1b060baa1eafe53bd89fb08b0e86d6cc00fbdd9e43189",
      "index": 2
    }
  ]
}"#;

#[test]
fn sign_reply_decodes_into_a_transaction() {
    let ni = node();
    let response = parse_doc(SIGNED_TX_JSON);
    let tx = ni.sign_transaction(response).unwrap();
    assert_eq!(
        tx.tx_id.0,
        "0e6acf3f18b95bdc5bb1b060baa1eafe53bd89fb08b0e86d6cc00fbdd9e43189"
    );
}

#[test]
fn sign_reply_that_is_no_transaction_is_an_error() {
    let ni = node();
    let response = parse_doc(r#"{"outputs":[]}"#);
    let r = ni.sign_transaction(response);
    assert!(matches!(r, Err(NodeError::Other(m)) if m == "Failed Converting `Transaction` to json"));
}

#[test]
fn unsigned_tx_reads_declared_inputs() {
    let doc = parse_doc(
        r#"{"inputs":[{"boxId":"e56847ed19b3dc6b72828fcfb992fdf7310828cf291221269b7ffc72fd66706e"}],"outputs":[]}"#,
    );
    let tx = UnsignedTransaction::from_doc(doc).unwrap();
    assert_eq!(tx.input_box_ids.len(), 1);
    assert_eq!(
        tx.input_box_ids[0],
        "e56847ed19b3dc6b72828fcfb992fdf7310828cf291221269b7ffc72fd66706e"
    );
    assert_eq!(tx.data_input_box_ids.len(), 0);
}

#[test]
fn sign_body_with_implicit_boxes_sends_null_lists() {
    let ni = node();
    let doc = parse_doc(r#"{"inputs":[{"boxId":"aa"}]}"#);
    let tx = UnsignedTransaction::from_doc(doc).unwrap();
    let body = ni.sign_transaction_body(&tx, None, None).unwrap();
    assert_eq!(
        body,
        "{\"tx\":{\"inputs\":[{\"boxId\":\"aa\"}]},\"inputsRaw\":null,\"dataInputsRaw\":null}"
    );
}

#[test]
fn sign_body_rejects_uncovered_inputs() {
    let ni = node();
    let doc = parse_doc(r#"{"inputs":[{"boxId":"aa"}]}"#);
    let tx = UnsignedTransaction::from_doc(doc).unwrap();
    let boxes = vec![ergo_node_interface::boxes::WalletBox::new("bb".to_string(), 5)];
    let r = ni.sign_transaction_body(&tx, Some(boxes), None);
    assert!(matches!(r, Err(NodeError::Other(_))));
}

#[test]
fn sign_body_carries_the_consensus_encoding() {
    let ni = node();
    let box_doc = parse_doc(BOX_JSON);
    let wallet_box = ni.box_from_id(&box_doc).unwrap();
    assert_eq!(
        wallet_box.box_id,
        "e56847ed19b3dc6b72828fcfb992fdf7310828cf291221269b7ffc72fd66706e"
    );
    assert_eq!(wallet_box.value, 67500000000);

    let tx_doc = parse_doc(
        r#"{"inputs":[{"boxId":"e56847ed19b3dc6b72828fcfb992fdf7310828cf291221269b7ffc72fd66706e"}]}"#,
    );
    let tx = UnsignedTransaction::from_doc(tx_doc).unwrap();
    let body = ni.sign_transaction_body(&tx, Some(vec![wallet_box]), None).unwrap();

    let ergo_box: ErgoBox = serde_json::from_str(BOX_JSON).unwrap();
    let expected_hex = base16::encode_lower(&ergo_box.sigma_serialize_bytes().unwrap());
    assert!(body.contains(&expected_hex));
    assert!(body.starts_with("{\"tx\":"));
    assert!(body.ends_with(",\"dataInputsRaw\":null}"));
}

#[test]
fn pipeline_replies_with_error_field_are_rejected() {
    let ni = node();
    let reply = JsonValue::Obj(vec![(
        "error".to_string(),
        JsonValue::Str("bad rule".to_string()),
    )]);
    assert!(matches!(
        ni.submit_json_transaction(&reply),
        Err(NodeError::BadRequest(m)) if m == "bad rule"
    ));
    assert!(matches!(
        ni.generate_and_submit_transaction(&reply),
        Err(NodeError::BadRequest(m)) if m == "bad rule"
    ));
    let reply2 = JsonValue::Obj(vec![(
        "error".to_string(),
        JsonValue::Str("no wallet".to_string()),
    )]);
    assert!(matches!(
        ni.sign_json_transaction(reply2),
        Err(NodeError::BadRequest(m)) if m == "no wallet"
    ));
    let reply3 = JsonValue::Obj(vec![(
        "error".to_string(),
        JsonValue::Str("fee too low".to_string()),
    )]);
    assert!(matches!(
        ni.generate_json_transaction(reply3),
        Err(NodeError::BadRequest(m)) if m == "fee too low"
    ));
    let reply4 = JsonValue::Obj(vec![(
        "error".to_string(),
        JsonValue::Str("cannot sign".to_string()),
    )]);
    assert!(matches!(
        ni.sign_transaction(reply4),
        Err(NodeError::BadRequest(m)) if m == "cannot sign"
    ));
}

#[test]
fn detail_field_takes_precedence_over_error_field() {
    let ni = node();
    let reply = JsonValue::Obj(vec![
        ("detail".to_string(), JsonValue::Str("first".to_string())),
        ("error".to_string(), JsonValue::Str("second".to_string())),
    ]);
    assert!(matches!(
        ni.submit_json_transaction(&reply),
        Err(NodeError::BadRequest(m)) if m == "first"
    ));
}

#[test]
fn sign_body_fails_on_boxes_not_fetched_from_the_node() {
    let ni = node();
    let doc = parse_doc(r#"{"inputs":[{"boxId":"aa"}]}"#);
    let tx = UnsignedTransaction::from_doc(doc).unwrap();
    // the id matches, but the box carries no chain-level box to serialize
    let boxes = vec![ergo_node_interface::boxes::WalletBox::new("aa".to_string(), 5)];
    let r = ni.sign_transaction_body(&tx, Some(boxes), None);
    assert!(matches!(r, Err(NodeError::Other(_))));
}

#[test]
fn generate_reply_with_detail_is_rejected() {
    let ni = node();
    let response = JsonValue::Obj(vec![(
        "detail".to_string(),
        JsonValue::Str("fee too low".to_string()),
    )]);
    let r = ni.generate_json_transaction(response);
    assert!(matches!(r, Err(NodeError::BadRequest(m)) if m == "fee too low"));
}
