//! The few operations only the `ergo-lib` crate can perform — validating a
//! box or a signed transaction against the full chain data model, and the
//! consensus serialization of a box — together with `base16` encoding.
//!
//! Each item here is trusted: its contract states what the called crate's
//! source shows, and nothing here is otherwise checked.
use crate::document::hex_digit_char;
use ergo_lib::chain::transaction::Transaction;
use ergo_lib::ergotree_ir::chain::ergo_box::ErgoBox;
use ergo_lib::ergotree_ir::serialization::SigmaSerializable;
use vstd::prelude::*;

verus! {

#[verifier::external_type_specification]
#[verifier::external_body]
pub struct ExErgoBox(ErgoBox);

/// Whether a text is a well-formed JSON encoding of a full Ergo box.  The
/// exact grammar belongs to `ergo-lib`; the result depends on the text
/// alone.
pub uninterp spec fn box_json_parses(s: Seq<char>) -> bool;

/// Relies on `serde_json::from_str::<ErgoBox>`: whether the text parses as
/// a box depends on the text alone.
#[verifier::external_body]
pub(crate) fn parse_ergo_box(text: &str) -> (r: Option<ErgoBox>)
    ensures
        r is Some <==> box_json_parses(text@),
{
    serde_json::from_str(text).ok()
}

/// The consensus byte encoding of a box, or nothing when serialization
/// fails; either way a function of the box alone.
pub uninterp spec fn sigma_bytes_of(b: ErgoBox) -> Option<Seq<u8>>;

/// Relies on `SigmaSerializable::sigma_serialize_bytes` for `ErgoBox`: the
/// consensus byte encoding of the box, `None` when serialization fails;
/// the outcome depends on the box alone.
#[verifier::external_body]
pub(crate) fn sigma_serialize_box(b: &ErgoBox) -> (r: Option<Vec<u8>>)
    ensures
        match r {
            Some(bytes) => sigma_bytes_of(*b) == Some(bytes@),
            None => sigma_bytes_of(*b) is None,
        },
{
    b.sigma_serialize_bytes().ok()
}

/// Whether a box serializes to JSON text; the outcome is a function of
/// the box alone.  The text itself carries no name: the box's register
/// map is written in a hash order that may differ between two calls on
/// the same box, so only success or failure is deterministic.
pub uninterp spec fn ergo_box_json_ok(b: ErgoBox) -> bool;

/// Relies on `serde_json::to_string` for `ErgoBox`: the box as JSON text,
/// `None` when serialization fails.  Whether it succeeds depends on the
/// box alone; the text's register order does not, and is left unstated.
/// The crate re-serializes registers from their parsed constants; a
/// constant that parsed but cannot be written back stops the process
/// inside the crate rather than returning an error.
#[verifier::external_body]
pub(crate) fn ergo_box_json(b: &ErgoBox) -> (r: Option<String>)
    ensures
        r is Some <==> ergo_box_json_ok(*b),
{
    serde_json::to_string(b).ok()
}

/// The lowercase hexadecimal encoding: two digits for each byte, in order.
pub open spec fn hex_lower_of(bytes: Seq<u8>) -> Seq<char>
    decreases bytes,
{
    if bytes.len() == 0 {
        Seq::empty()
    } else {
        hex_lower_of(bytes.drop_last()) + seq![
            hex_digit_char((bytes.last() / 16) as nat),
            hex_digit_char((bytes.last() % 16) as nat),
        ]
    }
}

/// Relies on `base16::encode_lower`: two lowercase hexadecimal digits per
/// byte, in order.
#[verifier::external_body]
pub(crate) fn base16_encode_lower(bytes: &Vec<u8>) -> (r: String)
    ensures
        r@ == hex_lower_of(bytes@),
{
    base16::encode_lower(bytes)
}

/// The id a signed-transaction JSON text carries, when the text is a
/// well-formed signed transaction; the id is derived from the text alone.
pub uninterp spec fn signed_tx_id_of(s: Seq<char>) -> Option<Seq<char>>;

/// Relies on `serde_json::from_str::<Transaction>` and `Transaction::id`:
/// both the parse outcome and the id depend on the text alone.
#[verifier::external_body]
pub(crate) fn parse_signed_tx_id(text: &str) -> (r: Option<String>)
    ensures
        match r {
            Some(id) => signed_tx_id_of(text@) == Some(id@),
            None => signed_tx_id_of(text@) is None,
        },
{
    let tx: Transaction = match serde_json::from_str(text) {
        Ok(t) => t,
        Err(_) => {
            return None;
        },
    };
    Some(String::from(tx.id()))
}

} // verus!
