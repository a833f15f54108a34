//! The transaction pipeline: draft request, unsigned transaction, signed
//! transaction, submitted transaction id.
//!
//! Each node round trip is split into a body builder and a reply
//! interpreter; the embedding application posts the body and hands the
//! decoded reply back.
use crate::boxes::WalletBox;
use crate::document::{
    display_text,
    doc_text,
    push_doc,
    push_quoted,
    quoted,
    spec_field,
    spec_item,
    JsonValue,
};
use crate::ergo::{base16_encode_lower, hex_lower_of, sigma_bytes_of, sigma_serialize_box, signed_tx_id_of};
use crate::node_interface::{NodeError, NodeInterface};
use crate::text::{push_chars, str_eq, string_of};
use vstd::prelude::*;

verus! {

/// Whether `c` is a hexadecimal digit.
pub open spec fn is_hex_digit(c: char) -> bool {
    ||| ('0' <= c && c <= '9')
    ||| ('a' <= c && c <= 'f')
    ||| ('A' <= c && c <= 'F')
}

/// Whether `s` is the hex text of a 32-byte digest: a transaction id.
pub open spec fn is_tx_id_text(s: Seq<char>) -> bool {
    s.len() == 64 && forall|i: int| 0 <= i < s.len() ==> is_hex_digit(#[trigger] s[i])
}

/// The id of a transaction on the chain: the hex text of a 32-byte digest.
#[derive(Debug, Clone, PartialEq, Eq)]
pub struct TxId(pub String);

impl TxId {
    /// Parse a transaction id out of its hex text; text that is not a
    /// 64-digit hex string is rejected.
    pub fn parse(s: &str) -> (r: Result<TxId, NodeError>)
        ensures
            match r {
                Ok(id) => is_tx_id_text(s@) && id.0@ == s@,
                Err(e) => !is_tx_id_text(s@) && (e matches NodeError::FailedParsingNodeResponse(m)
                    && m@ == s@),
            },
    {
        let cs = crate::text::chars_of(s);
        if cs.len() != 64 {
            return Err(NodeError::FailedParsingNodeResponse(s.to_owned()));
        }
        let mut i: usize = 0;
        while i < cs.len()
            invariant
                i <= cs@.len(),
                cs@ == s@,
                forall|j: int| 0 <= j < i ==> is_hex_digit(#[trigger] s@[j]),
            decreases cs@.len() - i,
        {
            let c = cs[i];
            let digit = ('0' <= c && c <= '9') || ('a' <= c && c <= 'f') || ('A' <= c && c
                <= 'F');
            if !digit {
                proof {
                    assert(!is_hex_digit(s@[i as int]));
                }
                return Err(NodeError::FailedParsingNodeResponse(s.to_owned()));
            }
            i += 1;
        }
        Ok(TxId(s.to_owned()))
    }
}

/// A node-signed, submittable transaction: its id and the signed document
/// the node returned.  It is never constructed locally from scratch — only
/// a successful sign operation yields one.
pub struct Transaction {
    pub tx_id: TxId,
    pub doc: JsonValue,
}

/// Whether an unsigned-transaction document has readable input lists: an
/// `inputs` array whose entries name their boxes, and either no
/// `dataInputs` or an array of the same shape.
pub open spec fn unsigned_tx_wf(doc: JsonValue) -> bool {
    &&& input_list_wf(spec_field(doc, "inputs"@))
    &&& (spec_field(doc, "dataInputs"@) is Null || input_list_wf(spec_field(doc, "dataInputs"@)))
}

/// Whether a document is an array of entries each naming a box id.
pub open spec fn input_list_wf(v: JsonValue) -> bool {
    &&& v is Arr
    &&& forall|i: int|
        0 <= i < v->Arr_0@.len() ==> spec_field(#[trigger] spec_item(v, i), "boxId"@) is Str
}

/// The box ids an input list names, in order.
pub open spec fn input_list_ids(v: JsonValue) -> Seq<Seq<char>> {
    Seq::new(v->Arr_0@.len(), |i: int| spec_field(spec_item(v, i), "boxId"@)->Str_0@)
}

/// A request skeleton for signing: the unsigned-transaction document and
/// the box ids its inputs and data inputs declare.
pub struct UnsignedTransaction {
    pub doc: JsonValue,
    pub input_box_ids: Vec<String>,
    pub data_input_box_ids: Vec<String>,
}

/// The view of a list of id strings.
pub open spec fn id_views(ids: Seq<String>) -> Seq<Seq<char>> {
    ids.map_values(|s: String| s@)
}

impl UnsignedTransaction {
    /// Read an unsigned-transaction document into a request skeleton,
    /// keeping the document and its declared input box ids.  A document
    /// without readable input lists is rejected.
    pub fn from_doc(doc: JsonValue) -> (r: Result<UnsignedTransaction, NodeError>)
        ensures
            match r {
                Ok(tx) => {
                    &&& unsigned_tx_wf(doc)
                    &&& tx.doc == doc
                    &&& id_views(tx.input_box_ids@) == input_list_ids(spec_field(doc, "inputs"@))
                    &&& if spec_field(doc, "dataInputs"@) is Null {
                        id_views(tx.data_input_box_ids@) == Seq::<Seq<char>>::empty()
                    } else {
                        id_views(tx.data_input_box_ids@) == input_list_ids(
                            spec_field(doc, "dataInputs"@),
                        )
                    }
                },
                Err(e) => !unsigned_tx_wf(doc) && (e matches NodeError::Other(m) && m@
                    == "unsigned transaction carries no readable input list"@),
            },
    {
        let input_box_ids = match read_input_ids(&doc, "inputs") {
            Some(ids) => ids,
            None => {
                return Err(
                    NodeError::Other("unsigned transaction carries no readable input list".to_owned()),
                );
            },
        };
        let data_input_box_ids = match doc.field("dataInputs") {
            None => Vec::new(),
            Some(d) => {
                if d.is_null() {
                    Vec::new()
                } else {
                    match read_input_ids(&doc, "dataInputs") {
                        Some(ids) => ids,
                        None => {
                            return Err(
                                NodeError::Other(
                                    "unsigned transaction carries no readable input list".to_owned(),
                                ),
                            );
                        },
                    }
                }
            },
        };
        proof {
            assert(id_views(Seq::<String>::empty()) =~= Seq::<Seq<char>>::empty());
        }
        Ok(UnsignedTransaction { doc, input_box_ids, data_input_box_ids })
    }
}

/// Read the box ids the named input list of `doc` declares; `None` when
/// the list is absent or malformed.
#[verifier::loop_isolation(false)]
fn read_input_ids(doc: &JsonValue, key: &str) -> (r: Option<Vec<String>>)
    ensures
        match r {
            Some(ids) => input_list_wf(spec_field(*doc, key@)) && id_views(ids@)
                == input_list_ids(spec_field(*doc, key@)),
            None => !input_list_wf(spec_field(*doc, key@)),
        },
{
    let list = match doc.field(key) {
        Some(l) => l,
        None => {
            return None;
        },
    };
    let items = match list {
        JsonValue::Arr(items) => items,
        _ => {
            return None;
        },
    };
    let ghost lv = spec_field(*doc, key@);
    let mut out: Vec<String> = Vec::new();
    let mut i: usize = 0;
    while i < items.len()
        invariant
            i <= items@.len(),
            out@.len() == i,
            forall|j: int|
                0 <= j < i ==> spec_field(#[trigger] spec_item(lv, j), "boxId"@) is Str,
            forall|j: int|
                0 <= j < i ==> (#[trigger] out@[j])@ == spec_field(
                    spec_item(lv, j),
                    "boxId"@,
                )->Str_0@,
        decreases items@.len() - i,
    {
        proof {
            assert(spec_item(lv, i as int) == items@[i as int]);
        }
        match items[i].field("boxId") {
            Some(JsonValue::Str(s)) => {
                out.push(s.clone());
            },
            _ => {
                return None;
            },
        }
        i += 1;
    }
    proof {
        assert(id_views(out@) =~= input_list_ids(lv));
    }
    Some(out)
}

/// Whether `id` names one of `boxes`.
pub open spec fn id_among(id: Seq<char>, boxes: Seq<WalletBox>) -> bool {
    exists|j: int| 0 <= j < boxes.len() && (#[trigger] boxes[j]).box_id@ == id
}

/// Whether every id in `ids` names a box of `boxes`.
pub open spec fn ids_covered(ids: Seq<Seq<char>>, boxes: Seq<WalletBox>) -> bool {
    forall|i: int| 0 <= i < ids.len() ==> id_among(#[trigger] ids[i], boxes)
}

/// Whether the boxes supplied to a sign call satisfy the unsigned
/// transaction's declared inputs: when explicit boxes are given, every
/// input and every data input must name one of them.
pub open spec fn sign_inputs_ok(
    tx: UnsignedTransaction,
    boxes_to_spend: Option<Seq<WalletBox>>,
    data_input_boxes: Option<Seq<WalletBox>>,
) -> bool {
    match boxes_to_spend {
        None => true,
        Some(bs) => {
            &&& ids_covered(id_views(tx.input_box_ids@), bs)
            &&& ids_covered(
                id_views(tx.data_input_box_ids@),
                match data_input_boxes {
                    Some(ds) => ds,
                    None => Seq::empty(),
                },
            )
        },
    }
}

/// Whether `id` names one of `boxes`.
#[verifier::loop_isolation(false)]
fn id_in_boxes(id: &String, boxes: &Vec<WalletBox>) -> (r: bool)
    ensures
        r == id_among(id@, boxes@),
{
    let mut j: usize = 0;
    while j < boxes.len()
        invariant
            j <= boxes@.len(),
            forall|k: int| 0 <= k < j ==> (#[trigger] boxes@[k]).box_id@ != id@,
        decreases boxes@.len() - j,
    {
        if str_eq(boxes[j].box_id.as_str(), id.as_str()) {
            return true;
        }
        j += 1;
    }
    false
}

/// Whether every id of `ids` names one of `boxes`.
#[verifier::loop_isolation(false)]
fn all_ids_in_boxes(ids: &Vec<String>, boxes: &Vec<WalletBox>) -> (r: bool)
    ensures
        r == ids_covered(id_views(ids@), boxes@),
{
    let mut i: usize = 0;
    while i < ids.len()
        invariant
            i <= ids@.len(),
            forall|k: int| 0 <= k < i ==> id_among((#[trigger] ids@[k])@, boxes@),
        decreases ids@.len() - i,
    {
        if !id_in_boxes(&ids[i], boxes) {
            proof {
                assert(id_views(ids@)[i as int] == ids@[i as int]@);
            }
            return false;
        }
        i += 1;
    }
    proof {
        assert forall|k: int| 0 <= k < id_views(ids@).len() implies id_among(
            #[trigger] id_views(ids@)[k],
            boxes@,
        ) by {
            assert(id_views(ids@)[k] == ids@[k]@);
        }
        assert(ids_covered(id_views(ids@), boxes@));
    }
    true
}

/// The serialized JSON array of quoted strings.
pub open spec fn str_array_text(items: Seq<Seq<char>>) -> Seq<char>
    decreases items,
{
    if items.len() == 0 {
        seq!['[', ']']
    } else if items.len() == 1 {
        seq!['['] + quoted(items[0]) + seq![']']
    } else {
        str_array_text(items.drop_last()).drop_last() + seq![','] + quoted(items.last())
            + seq![']']
    }
}

/// Whether a box can be carried in a sign request: it came from the node
/// and its consensus serialization succeeds.
pub open spec fn box_encodable(b: WalletBox) -> bool {
    b.ebox matches Some(eb) && sigma_bytes_of(eb) is Some
}

/// Whether every box of `s` can be carried in a sign request.
pub open spec fn all_encodable(s: Seq<WalletBox>) -> bool {
    forall|i: int| 0 <= i < s.len() ==> box_encodable(#[trigger] s[i])
}

/// The base16 texts of the boxes' consensus serializations, in order.
pub open spec fn box_encodings(s: Seq<WalletBox>) -> Seq<Seq<char>> {
    Seq::new(s.len(), |i: int| hex_lower_of(sigma_bytes_of(s[i].ebox->0)->Some_0))
}

/// The view of optionally supplied boxes.
pub open spec fn opt_boxes_view(o: Option<Vec<WalletBox>>) -> Option<Seq<WalletBox>> {
    match o {
        Some(v) => Some(v@),
        None => None,
    }
}

/// Whether every optionally supplied box can be carried in a sign request.
pub open spec fn sign_boxes_encodable(
    bs: Option<Seq<WalletBox>>,
    ds: Option<Seq<WalletBox>>,
) -> bool {
    &&& (bs matches Some(s) ==> all_encodable(s))
    &&& (ds matches Some(s) ==> all_encodable(s))
}

/// How an optional box list appears in a sign request body: `null` when
/// the node is to pick the boxes itself, else the array of base16
/// encodings.
pub open spec fn raw_list_text(o: Option<Seq<WalletBox>>) -> Seq<char> {
    match o {
        None => "null"@,
        Some(s) => str_array_text(box_encodings(s)),
    }
}

/// The body of a sign request: the unsigned document under `tx`, and the
/// two optional box lists as their consensus encodings.
pub open spec fn sign_body_text(
    tx: UnsignedTransaction,
    bs: Option<Seq<WalletBox>>,
    ds: Option<Seq<WalletBox>>,
) -> Seq<char> {
    "{\"tx\":"@ + doc_text(tx.doc) + ",\"inputsRaw\":"@ + raw_list_text(bs)
        + ",\"dataInputsRaw\":"@ + raw_list_text(ds) + "}"@
}

/// Encode boxes for a sign request: the base16 text of each box's
/// consensus serialization, in order.  A box that did not come from the
/// node, or whose serialization fails, cannot be encoded.
#[verifier::loop_isolation(false)]
fn encode_boxes(boxes: &Vec<WalletBox>) -> (r: Option<Vec<String>>)
    ensures
        match r {
            Some(encs) => all_encodable(boxes@) && encs@.map_values(|s: String| s@)
                == box_encodings(boxes@),
            None => !all_encodable(boxes@),
        },
{
    let mut out: Vec<String> = Vec::new();
    let mut i: usize = 0;
    while i < boxes.len()
        invariant
            i <= boxes@.len(),
            out@.len() == i,
            forall|j: int| 0 <= j < i ==> box_encodable(#[trigger] boxes@[j]),
            forall|j: int|
                0 <= j < i ==> (#[trigger] out@[j])@ == hex_lower_of(
                    sigma_bytes_of(boxes@[j].ebox->0)->Some_0,
                ),
        decreases boxes@.len() - i,
    {
        let bytes = match &boxes[i].ebox {
            Some(eb) => match sigma_serialize_box(eb) {
                Some(bs) => bs,
                None => {
                    proof {
                        assert(!box_encodable(boxes@[i as int]));
                    }
                    return None;
                },
            },
            None => {
                proof {
                    assert(!box_encodable(boxes@[i as int]));
                }
                return None;
            },
        };
        out.push(base16_encode_lower(&bytes));
        i += 1;
    }
    proof {
        assert(out@.map_values(|s: String| s@) =~= box_encodings(boxes@));
    }
    Some(out)
}

/// Append the JSON array of the quoted `items` to `out`.
#[verifier::loop_isolation(false)]
fn push_str_array(out: &mut Vec<char>, items: &Vec<String>)
    ensures
        final(out)@ == old(out)@ + str_array_text(items@.map_values(|s: String| s@)),
{
    let ghost views = items@.map_values(|s: String| s@);
    out.push('[');
    let mut i: usize = 0;
    while i < items.len()
        invariant
            i <= items@.len(),
            views == items@.map_values(|s: String| s@),
            out@ =~= old(out)@ + if i == 0 {
                seq!['[']
            } else {
                str_array_text(views.take(i as int)).drop_last()
            },
        decreases items@.len() - i,
    {
        if i > 0 {
            out.push(',');
        }
        push_quoted(out, &items[i]);
        i += 1;
        proof {
            assert(views.take(i as int).drop_last() =~= views.take(i - 1));
            assert(views.take(i as int).last() == views[i - 1]);
            assert(views[i - 1] == items@[i - 1]@);
            if i == 1 {
                assert(views.take(1)[0] == views[0]);
                assert(str_array_text(views.take(1)) == seq!['['] + quoted(views[0]) + seq![']']);
            }
            assert(out@ =~= old(out)@ + str_array_text(views.take(i as int)).drop_last());
        }
    }
    out.push(']');
    proof {
        if items@.len() == 0 {
            assert(str_array_text(views) == seq!['[', ']']);
            assert(out@ =~= old(out)@ + str_array_text(views));
        } else {
            assert(views.take(views.len() as int) =~= views);
            assert(str_array_text(views).last() == ']') by {
                if views.len() == 1 {
                    assert(str_array_text(views) == seq!['['] + quoted(views[0]) + seq![']']);
                }
            }
            assert(out@ =~= old(out)@ + str_array_text(views).drop_last().push(
                str_array_text(views).last(),
            ));
            assert(str_array_text(views).drop_last().push(str_array_text(views).last())
                =~= str_array_text(views));
        }
    }
}

impl NodeInterface {
    /// The body that submits a signed transaction as JSON: the document
    /// itself.
    pub fn submit_transaction_body(&self, tx: &Transaction) -> (r: String)
        ensures
            r@ == doc_text(tx.doc),
    {
        tx.doc.dump()
    }

    /// Submits a Signed Transaction provided as input as JSON to the Ergo
    /// Blockchain mempool: reads the node's reply, which carries the new
    /// transaction id as a bare string, or a non-null `detail` or `error`
    /// field on rejection.
    pub fn submit_json_transaction(&self, response: &JsonValue) -> (r: Result<TxId, NodeError>)
        ensures
            match r {
                Ok(id) => {
                    &&& spec_rejection(*response) is None
                    &&& *response matches JsonValue::Str(s) && id.0@ == s@ && is_tx_id_text(s@)
                },
                Err(NodeError::BadRequest(m)) => spec_rejection(*response) == Some(m@),
                Err(NodeError::FailedParsingNodeResponse(m)) => {
                    &&& spec_rejection(*response) is None
                    &&& match *response {
                        JsonValue::Str(s) => !is_tx_id_text(s@) && m@ == s@,
                        _ => m@ == display_text(*response),
                    }
                },
                _ => false,
            },
    {
        if let Some(m) = rejection_error(response) {
            return Err(NodeError::BadRequest(m));
        }
        match response {
            JsonValue::Str(s) => TxId::parse(s.as_str()),
            _ => Err(NodeError::FailedParsingNodeResponse(response.display())),
        }
    }

    /// Generates and submits a tx in one node round trip: the reply is
    /// read exactly as a submission reply.
    pub fn generate_and_submit_transaction(&self, response: &JsonValue) -> (r: Result<
        TxId,
        NodeError,
    >)
        ensures
            match r {
                Ok(id) => {
                    &&& spec_rejection(*response) is None
                    &&& *response matches JsonValue::Str(s) && id.0@ == s@ && is_tx_id_text(s@)
                },
                Err(NodeError::BadRequest(m)) => spec_rejection(*response) == Some(m@),
                Err(NodeError::FailedParsingNodeResponse(m)) => {
                    &&& spec_rejection(*response) is None
                    &&& match *response {
                        JsonValue::Str(s) => !is_tx_id_text(s@) && m@ == s@,
                        _ => m@ == display_text(*response),
                    }
                },
                _ => false,
            },
    {
        self.submit_json_transaction(response)
    }

    /// Submits a Signed `Transaction` provided as input to the Ergo
    /// Blockchain mempool.  On success the returned id must equal the id
    /// already embedded in the transaction: a mismatch indicates a
    /// transport or encoding fault and is surfaced as an error, never
    /// silently accepted.
    pub fn submit_transaction(&self, signed_tx: &Transaction, response: &JsonValue) -> (r: Result<
        TxId,
        NodeError,
    >)
        ensures
            r matches Ok(id) ==> {
                &&& id.0@ == signed_tx.tx_id.0@
                &&& *response matches JsonValue::Str(s) && s@ == id.0@
            },
            (match *response {
                JsonValue::Str(s) => s@ != signed_tx.tx_id.0@,
                _ => true,
            }) ==> r is Err,
            (spec_rejection(*response) is None && (*response matches JsonValue::Str(s) && s@
                == signed_tx.tx_id.0@ && is_tx_id_text(s@))) ==> r is Ok,
    {
        let id = match self.submit_json_transaction(response) {
            Ok(id) => id,
            Err(e) => {
                return Err(e);
            },
        };
        if !str_eq(id.0.as_str(), signed_tx.tx_id.0.as_str()) {
            return Err(
                NodeError::Other(
                    "the node returned a transaction id that differs from the submitted transaction".to_owned(),
                ),
            );
        }
        Ok(id)
    }

    /// The body that signs an unsigned transaction given as a document:
    /// the document wrapped under a `tx` field.
    pub fn sign_json_transaction_body(&self, unsigned_tx: &JsonValue) -> (r: String)
        ensures
            r@ == "{\"tx\":"@ + doc_text(*unsigned_tx) + "}"@,
    {
        let mut out: Vec<char> = Vec::new();
        push_chars(&mut out, "{\"tx\":");
        push_doc(&mut out, unsigned_tx);
        push_chars(&mut out, "}");
        string_of(&out)
    }

    /// Sign an Unsigned Transaction which is formatted in JSON: the node's
    /// reply is the signed document, unless it carries a non-null `detail`
    /// or `error` field.
    pub fn sign_json_transaction(&self, response: JsonValue) -> (r: Result<JsonValue, NodeError>)
        ensures
            match r {
                Ok(doc) => spec_rejection(response) is None && doc == response,
                Err(NodeError::BadRequest(m)) => spec_rejection(response) == Some(m@),
                _ => false,
            },
    {
        if let Some(m) = rejection_error(&response) {
            return Err(NodeError::BadRequest(m));
        }
        Ok(response)
    }

    /// Generates Json of an Unsigned Transaction from the node's reply,
    /// which is returned unmodified unless it carries a non-null `detail`
    /// or `error` field.
    pub fn generate_json_transaction(&self, response: JsonValue) -> (r: Result<
        JsonValue,
        NodeError,
    >)
        ensures
            match r {
                Ok(doc) => spec_rejection(response) is None && doc == response,
                Err(NodeError::BadRequest(m)) => spec_rejection(response) == Some(m@),
                _ => false,
            },
    {
        if let Some(m) = rejection_error(&response) {
            return Err(NodeError::BadRequest(m));
        }
        Ok(response)
    }

    /// The body that signs an `UnsignedTransaction`, with optional
    /// explicit input and data-input boxes.  When explicit boxes are
    /// supplied, the transaction's declared inputs are first validated
    /// against them locally: a mismatch is a local error and the request
    /// is never sent.  The boxes are carried in the body as the base16
    /// text of their consensus serialization.
    pub fn sign_transaction_body(
        &self,
        unsigned_tx: &UnsignedTransaction,
        boxes_to_spend: Option<Vec<WalletBox>>,
        data_input_boxes: Option<Vec<WalletBox>>,
    ) -> (r: Result<String, NodeError>)
        ensures
            r is Ok <==> (sign_inputs_ok(
                *unsigned_tx,
                opt_boxes_view(boxes_to_spend),
                opt_boxes_view(data_input_boxes),
            ) && sign_boxes_encodable(
                opt_boxes_view(boxes_to_spend),
                opt_boxes_view(data_input_boxes),
            )),
            r matches Ok(body) ==> body@ == sign_body_text(
                *unsigned_tx,
                opt_boxes_view(boxes_to_spend),
                opt_boxes_view(data_input_boxes),
            ),
            r matches Err(e) ==> e is Other,
    {
        if let Some(bs) = &boxes_to_spend {
            if !all_ids_in_boxes(&unsigned_tx.input_box_ids, bs) {
                return Err(
                    NodeError::Other(
                        "an input of the transaction names no box of the provided set".to_owned(),
                    ),
                );
            }
            let data_ok = match &data_input_boxes {
                Some(ds) => all_ids_in_boxes(&unsigned_tx.data_input_box_ids, ds),
                None => {
                    let empty: Vec<WalletBox> = Vec::new();
                    all_ids_in_boxes(&unsigned_tx.data_input_box_ids, &empty)
                },
            };
            if !data_ok {
                return Err(
                    NodeError::Other(
                        "a data input of the transaction names no box of the provided set".to_owned(),
                    ),
                );
            }
        }
        let mut out: Vec<char> = Vec::new();
        push_chars(&mut out, "{\"tx\":");
        push_doc(&mut out, &unsigned_tx.doc);
        push_chars(&mut out, ",\"inputsRaw\":");
        let ghost a_text: Seq<char>;
        match &boxes_to_spend {
            None => {
                push_chars(&mut out, "null");
                proof {
                    a_text = "null"@;
                }
            },
            Some(bs) => {
                let encs = match encode_boxes(bs) {
                    Some(encs) => encs,
                    None => {
                        return Err(
                            NodeError::Other("failed serializing a provided box".to_owned()),
                        );
                    },
                };
                proof {
                    a_text = str_array_text(encs@.map_values(|s: String| s@));
                    assert(a_text == raw_list_text(opt_boxes_view(boxes_to_spend)));
                }
                push_str_array(&mut out, &encs);
            },
        }
        push_chars(&mut out, ",\"dataInputsRaw\":");
        let ghost b_text: Seq<char>;
        match &data_input_boxes {
            None => {
                push_chars(&mut out, "null");
                proof {
                    b_text = "null"@;
                }
            },
            Some(ds) => {
                let encs = match encode_boxes(ds) {
                    Some(encs) => encs,
                    None => {
                        return Err(
                            NodeError::Other("failed serializing a provided box".to_owned()),
                        );
                    },
                };
                proof {
                    b_text = str_array_text(encs@.map_values(|s: String| s@));
                    assert(b_text == raw_list_text(opt_boxes_view(data_input_boxes)));
                }
                push_str_array(&mut out, &encs);
            },
        }
        push_chars(&mut out, "}");
        let body = string_of(&out);
        proof {
            assert(a_text == raw_list_text(opt_boxes_view(boxes_to_spend)));
            assert(b_text == raw_list_text(opt_boxes_view(data_input_boxes)));
            assert(body@ == "{\"tx\":"@ + doc_text(unsigned_tx.doc) + ",\"inputsRaw\":"@ + a_text
                + ",\"dataInputsRaw\":"@ + b_text + "}"@);
        }
        Ok(body)
    }

    /// Sign an `UnsignedTransaction` from the node's reply: the signed
    /// document is decoded into a `Transaction`.  A reply that carries a
    /// non-null `detail` or `error` field is a rejection; one that does not
    /// decode into a transaction after an apparently successful sign is
    /// itself an error.
    pub fn sign_transaction(&self, response: JsonValue) -> (r: Result<Transaction, NodeError>)
        ensures
            match r {
                Ok(tx) => {
                    &&& spec_rejection(response) is None
                    &&& signed_tx_id_of(doc_text(response)) == Some(tx.tx_id.0@)
                    &&& tx.doc == response
                },
                Err(NodeError::BadRequest(m)) => spec_rejection(response) == Some(m@),
                Err(NodeError::Other(m)) => {
                    &&& spec_rejection(response) is None
                    &&& signed_tx_id_of(doc_text(response)) is None
                    &&& m@ == "Failed Converting `Transaction` to json"@
                },
                _ => false,
            },
    {
        if let Some(m) = rejection_error(&response) {
            return Err(NodeError::BadRequest(m));
        }
        let text = response.dump();
        match crate::ergo::parse_signed_tx_id(text.as_str()) {
            Some(id) => Ok(Transaction { tx_id: TxId(id), doc: response }),
            None => Err(NodeError::Other("Failed Converting `Transaction` to json".to_owned())),
        }
    }
}

/// The node-side rejection a pipeline reply carries: the display text of
/// its `detail` field when that is not the `null` marker, else of its
/// `error` field when that is not the `null` marker; nothing otherwise.
pub open spec fn spec_rejection(v: JsonValue) -> Option<Seq<char>> {
    if display_text(spec_field(v, "detail"@)) != "null"@ {
        Some(display_text(spec_field(v, "detail"@)))
    } else if display_text(spec_field(v, "error"@)) != "null"@ {
        Some(display_text(spec_field(v, "error"@)))
    } else {
        None
    }
}

/// The rejection a reply carries, by the convention above.
fn rejection_error(response: &JsonValue) -> (r: Option<String>)
    ensures
        match r {
            Some(m) => spec_rejection(*response) == Some(m@),
            None => spec_rejection(*response) is None,
        },
{
    proof {
        reveal_strlit("null");
    }
    let detail = match response.field("detail") {
        Some(f) => f.display(),
        None => JsonValue::Null.display(),
    };
    if !str_eq(detail.as_str(), "null") {
        return Some(detail);
    }
    let error = match response.field("error") {
        Some(f) => f.display(),
        None => JsonValue::Null.display(),
    };
    if !str_eq(error.as_str(), "null") {
        return Some(error);
    }
    None
}

} // verus!
