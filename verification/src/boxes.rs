//! The box model and the box selector: turning a requested spend amount
//! into a concrete prefix of candidate boxes, under a chosen ordering.
use crate::document::{doc_text, spec_field, spec_item, JsonValue};
use crate::ergo::{box_json_parses, parse_ergo_box};
use crate::node_interface::{NodeError, NodeInterface};
use crate::text::seq_filter_push;
use ergo_lib::ergotree_ir::chain::ergo_box::ErgoBox;
use vstd::prelude::*;
use vstd::multiset::Multiset;
use vstd::seq_lib::*;

verus! {

/// One unspent box, as this crate reads it: its id, its value in nanoErgs,
/// and — when it came from the node — the full chain-level box behind it.
pub struct WalletBox {
    /// The box id, hex encoded.
    pub box_id: String,
    /// The value the box holds, in nanoErgs.
    pub value: u64,
    /// The chain-level box, present when this value was parsed from a node
    /// reply; absent for locally built candidates.
    pub ebox: Option<ErgoBox>,
}

impl WalletBox {
    /// A locally built candidate box, carrying only what the selector
    /// reads.
    pub fn new(box_id: String, value: u64) -> (r: WalletBox)
        ensures
            r.box_id == box_id,
            r.value == value,
            r.ebox is None,
    {
        WalletBox { box_id, value, ebox: None }
    }
}

/// The sum of the values of a sequence of boxes.
pub open spec fn sum_values(s: Seq<WalletBox>) -> int
    decreases s,
{
    if s.len() == 0 {
        0
    } else {
        sum_values(s.drop_last()) + s.last().value
    }
}

/// Whether a sequence of boxes is ordered from highest to lowest value.
pub open spec fn sorted_desc(s: Seq<WalletBox>) -> bool {
    forall|i: int, j: int| 0 <= i < j < s.len() ==> s[i].value >= s[j].value
}

/// The sum of box values is never negative.
pub proof fn lemma_sum_values_nonneg(s: Seq<WalletBox>)
    ensures
        sum_values(s) >= 0,
    decreases s,
{
    if s.len() > 0 {
        lemma_sum_values_nonneg(s.drop_last());
    }
}

/// The sum of box values splits over concatenation.
pub proof fn lemma_sum_values_concat(a: Seq<WalletBox>, b: Seq<WalletBox>)
    ensures
        sum_values(a + b) == sum_values(a) + sum_values(b),
    decreases b,
{
    if b.len() == 0 {
        assert(a + b =~= a);
    } else {
        lemma_sum_values_concat(a, b.drop_last());
        assert((a + b).drop_last() =~= a + b.drop_last());
        assert((a + b).last() == b.last());
    }
}


/// Removing one box takes exactly its value out of the sum.
pub proof fn lemma_sum_values_remove(s: Seq<WalletBox>, i: int)
    requires
        0 <= i < s.len(),
    ensures
        sum_values(s.remove(i)) == sum_values(s) - s[i].value,
{
    assert(s =~= s.take(i) + s.skip(i));
    lemma_sum_values_concat(s.take(i), s.skip(i));
    assert(s.skip(i) =~= seq![s[i]] + s.skip(i + 1));
    lemma_sum_values_concat(seq![s[i]], s.skip(i + 1));
    assert(sum_values(seq![s[i]]) == s[i].value) by {
        assert(seq![s[i]].drop_last() =~= Seq::<WalletBox>::empty());
        assert(sum_values(Seq::<WalletBox>::empty()) == 0);
        assert(seq![s[i]].last() == s[i]);
    }
    assert(s.remove(i) =~= s.take(i) + s.skip(i + 1));
    lemma_sum_values_concat(s.take(i), s.skip(i + 1));
}

/// Reordering boxes does not change the sum of their values.
pub proof fn lemma_sum_values_permutation(a: Seq<WalletBox>, b: Seq<WalletBox>)
    requires
        a.to_multiset() == b.to_multiset(),
    ensures
        sum_values(a) == sum_values(b),
    decreases a.len(),
{
    broadcast use vstd::seq_lib::group_to_multiset_ensures;

    if a.len() == 0 {
        assert(b.to_multiset().len() == 0);
        assert(b.len() == 0);
    } else {
        let x = a.last();
        assert(a.contains(x));
        assert(a.to_multiset().count(x) > 0);
        assert(b.to_multiset().count(x) > 0);
        assert(b.contains(x));
        let i = choose|i: int| 0 <= i < b.len() && b[i] == x;
        assert(a.drop_last() =~= a.remove(a.len() - 1));
        assert(a.remove(a.len() - 1).to_multiset() == a.to_multiset().remove(x));
        assert(b.remove(i).to_multiset() == b.to_multiset().remove(x));
        lemma_sum_values_permutation(a.drop_last(), b.remove(i));
        lemma_sum_values_remove(b, i);
        assert(sum_values(a) == sum_values(a.drop_last()) + x.value);
    }
}

/// Whether a document is a well-formed box entry: a full box in
/// `ergo-lib`'s sense, with its id and value fields readable.  The id may
/// stand under `boxId` or under its `id` alias, as the chain's own JSON
/// accepts both.
pub open spec fn box_entry_ok(entry: JsonValue) -> bool {
    &&& box_json_parses(doc_text(entry))
    &&& (spec_field(entry, "boxId"@) is Str || spec_field(entry, "id"@) is Str)
    &&& spec_field(entry, "value"@) is Num
}

/// The id text of a well-formed box entry: the `boxId` field, or the `id`
/// alias where `boxId` is not a string.
pub open spec fn entry_box_id(entry: JsonValue) -> Seq<char> {
    if spec_field(entry, "boxId"@) is Str {
        spec_field(entry, "boxId"@)->Str_0@
    } else {
        spec_field(entry, "id"@)->Str_0@
    }
}

/// The value of a well-formed box entry.
pub open spec fn entry_value(entry: JsonValue) -> u64 {
    spec_field(entry, "value"@)->Num_0
}

/// Parse one box entry of a node reply.  `None` exactly when the entry is
/// not a well-formed box.
pub(crate) fn parse_box_entry(entry: &JsonValue) -> (r: Option<WalletBox>)
    ensures
        match r {
            Some(b) => {
                &&& box_entry_ok(*entry)
                &&& b.box_id@ == entry_box_id(*entry)
                &&& b.value == entry_value(*entry)
                &&& b.ebox is Some
            },
            None => !box_entry_ok(*entry),
        },
{
    let text = entry.dump();
    let ebox = match parse_ergo_box(text.as_str()) {
        Some(e) => e,
        None => {
            return None;
        },
    };
    let box_id = match entry.field("boxId") {
        Some(JsonValue::Str(s)) => s.clone(),
        _ => match entry.field("id") {
            Some(JsonValue::Str(s)) => s.clone(),
            _ => {
                return None;
            },
        },
    };
    let value = match entry.field("value") {
        Some(JsonValue::Num(n)) => *n,
        _ => {
            return None;
        },
    };
    Some(WalletBox { box_id, value, ebox: Some(ebox) })
}

/// The box-list entry at position `i` of a reply: `reply[i]["box"]`.
pub open spec fn box_entry_at(v: JsonValue, i: int) -> JsonValue {
    spec_field(spec_item(v, i), "box"@)
}

/// Whether the box list of a reply ends exactly at position `n`: every
/// entry before it is present, and the entry at `n` is the `null` end
/// marker.
pub open spec fn page_ends_at(v: JsonValue, n: int) -> bool {
    &&& 0 <= n
    &&& box_entry_at(v, n) is Null
    &&& forall|i: int| 0 <= i < n ==> !(#[trigger] box_entry_at(v, i) is Null)
}

/// The box entries of a reply, up to the end marker at `n`.
pub open spec fn entries_upto(v: JsonValue, n: int) -> Seq<JsonValue> {
    Seq::new(n as nat, |i: int| box_entry_at(v, i))
}

/// Collect the box entries of a reply, in order, stopping at the first
/// `null` or absent entry.
#[verifier::loop_isolation(false)]
pub(crate) fn page_box_entries<'a>(response: &'a JsonValue) -> (r: Vec<&'a JsonValue>)
    ensures
        page_ends_at(*response, r@.len() as int),
        forall|i: int| 0 <= i < r@.len() ==> *(#[trigger] r@[i]) == box_entry_at(*response, i),
{
    let mut out: Vec<&'a JsonValue> = Vec::new();
    match response {
        JsonValue::Arr(items) => {
            let mut i: usize = 0;
            while i < items.len()
                invariant
                    i <= items.len(),
                    out@.len() == i,
                    forall|j: int|
                        0 <= j < i ==> *(#[trigger] out@[j]) == box_entry_at(*response, j),
                    forall|j: int| 0 <= j < i ==> !(#[trigger] box_entry_at(*response, j) is Null),
                decreases items.len() - i,
            {
                let entry = match items[i].field("box") {
                    Some(f) => f,
                    None => {
                        proof {
                            assert(box_entry_at(*response, i as int) is Null);
                        }
                        return out;
                    },
                };
                if entry.is_null() {
                    proof {
                        assert(box_entry_at(*response, i as int) is Null);
                    }
                    return out;
                }
                proof {
                    assert(*entry == box_entry_at(*response, i as int));
                }
                out.push(entry);
                i += 1;
            }
            proof {
                assert(spec_item(*response, i as int) is Null);
                assert(box_entry_at(*response, i as int) is Null);
            }
            out
        },
        _ => {
            proof {
                assert(spec_item(*response, 0) is Null);
                assert(box_entry_at(*response, 0) is Null);
            }
            out
        },
    }
}

impl NodeInterface {
    /// The path that asks the wallet for its unspent boxes.
    pub fn unspent_boxes_endpoint(&self) -> (r: String)
        ensures
            r@ == "/wallet/boxes/unspent?minConfirmations=0&minInclusionHeight=0"@,
    {
        "/wallet/boxes/unspent?minConfirmations=0&minInclusionHeight=0".to_owned()
    }

    /// Acquires unspent boxes from the node wallet's reply.  The reply's
    /// box list ends at its first `null` or absent entry; an entry that is
    /// not a well-formed box is skipped.
    pub fn unspent_boxes(&self, response: &JsonValue) -> (r: Result<Vec<WalletBox>, NodeError>)
        ensures
            r is Ok,
            exists|n: int| #[trigger] parsed_boxes_ok(*response, n, (r->Ok_0)@),
    {
        let entries = page_box_entries(response);
        let ghost n = entries@.len() as int;
        let ghost all = entries_upto(*response, n);
        let mut out: Vec<WalletBox> = Vec::new();
        let mut i: usize = 0;
        proof {
            assert(all.take(0) =~= Seq::<JsonValue>::empty());
            assert(all.take(0).filter(|e: JsonValue| box_entry_ok(e)) =~= Seq::<
                JsonValue,
            >::empty());
        }
        while i < entries.len()
            invariant
                i <= entries@.len(),
                n == entries@.len(),
                all == entries_upto(*response, n),
                forall|j: int| 0 <= j < n ==> *(#[trigger] entries@[j]) == box_entry_at(
                    *response,
                    j,
                ),
                boxes_match(out@, all.take(i as int).filter(|e: JsonValue| box_entry_ok(e))),
            decreases entries@.len() - i,
        {
            let ghost prev_ok = all.take(i as int).filter(|e: JsonValue| box_entry_ok(e));
            proof {
                assert(all.take(i + 1) =~= all.take(i as int).push(all[i as int]));
                seq_filter_push(all.take(i as int), all[i as int], |e: JsonValue| box_entry_ok(e));
                assert(all[i as int] == *entries@[i as int]);
            }
            match parse_box_entry(entries[i]) {
                Some(b) => {
                    out.push(b);
                    proof {
                        assert(out@.drop_last() =~= out@.subrange(0, out@.len() - 1));
                        assert(boxes_match(
                            out@,
                            all.take(i + 1).filter(|e: JsonValue| box_entry_ok(e)),
                        ));
                    }
                },
                None => {
                    proof {
                        assert(boxes_match(
                            out@,
                            all.take(i + 1).filter(|e: JsonValue| box_entry_ok(e)),
                        ));
                    }
                },
            }
            i += 1;
        }
        proof {
            assert(all.take(n) =~= all);
            assert(parsed_boxes_ok(*response, n, out@));
        }
        let result: Result<Vec<WalletBox>, NodeError> = Ok(out);
        proof {
            assert(parsed_boxes_ok(*response, n, (result->Ok_0)@));
        }
        result
    }
}


/// Whether `parsed` is exactly the box list a reply carries: the paging
/// stops at `n` and the well-formed entries before it are read in order.
pub open spec fn parsed_boxes_ok(v: JsonValue, n: int, parsed: Seq<WalletBox>) -> bool {
    &&& page_ends_at(v, n)
    &&& boxes_match(parsed, entries_upto(v, n).filter(|e: JsonValue| box_entry_ok(e)))
}

/// Whether the parsed boxes `bs` read exactly the well-formed entries
/// `ok_entries`, in order.
pub open spec fn boxes_match(bs: Seq<WalletBox>, ok_entries: Seq<JsonValue>) -> bool {
    &&& bs.len() == ok_entries.len()
    &&& forall|i: int|
        0 <= i < bs.len() ==> {
            &&& (#[trigger] bs[i]).box_id@ == entry_box_id(ok_entries[i])
            &&& bs[i].value == entry_value(ok_entries[i])
            &&& bs[i].ebox is Some
        }
}

impl NodeInterface {
    /// Given a list of candidate boxes, consume each box into a new list
    /// until the `total` is reached.  The result is the consumed prefix;
    /// its sum covers `total`, and no shorter prefix does.  If the boxes
    /// hold fewer nanoErgs than `total` altogether, the partial result is
    /// discarded and the call fails with `InsufficientErgsBalance`.
    #[verifier::loop_isolation(false)]
    pub fn consume_boxes_until_total(&self, total: u64, boxes: Vec<WalletBox>) -> (r: Result<
        Vec<WalletBox>,
        NodeError,
    >)
        ensures
            r is Ok <==> sum_values(boxes@) >= total,
            r matches Ok(sel) ==> {
                &&& sel@.len() <= boxes@.len()
                &&& sel@ =~= boxes@.take(sel@.len() as int)
                &&& sum_values(sel@) >= total
                &&& sel@.len() > 0 ==> sum_values(sel@.drop_last()) < total
                &&& total == 0 ==> sel@.len() == 0
            },
            r matches Err(e) ==> e is InsufficientErgsBalance && sum_values(boxes@) < total,
    {
        let ghost orig = boxes@;
        let mut rest = boxes;
        let mut filtered: Vec<WalletBox> = Vec::new();
        let mut count: u128 = 0;
        proof {
            assert(filtered@ + rest@ =~= orig);
        }
        while count < total as u128 && rest.len() > 0
            invariant
                filtered@ + rest@ =~= orig,
                count == sum_values(filtered@),
                filtered@.len() > 0 ==> sum_values(filtered@.drop_last()) < total,
                count > 0 ==> filtered@.len() > 0,
                count <= u64::MAX as u128 + u64::MAX as u128,
            decreases rest@.len(),
        {
            let ghost rest0 = rest@;
            let b = rest.remove(0);
            let ghost filtered0 = filtered@;
            proof {
                assert(b == rest0[0]);
                assert(rest@ =~= rest0.drop_first());
                lemma_sum_values_nonneg(filtered@);
            }
            count = count + b.value as u128;
            filtered.push(b);
            proof {
                assert(filtered@.drop_last() =~= filtered0);
                assert(filtered@.last() == b);
                assert(filtered@ + rest@ =~= orig);
            }
        }
        proof {
            lemma_sum_values_concat(filtered@, rest@);
            lemma_sum_values_nonneg(rest@);
        }
        if count < total as u128 {
            proof {
                assert(rest@.len() == 0);
                assert(filtered@ =~= orig);
            }
            return Err(NodeError::InsufficientErgsBalance);
        }
        proof {
            assert(orig.take(filtered@.len() as int) =~= filtered@);
            assert(sum_values(filtered@) >= total);
            if total == 0 && filtered@.len() > 0 {
                lemma_sum_values_nonneg(filtered@.drop_last());
            }
            assert(total == 0 ==> filtered@.len() == 0);
            assert(filtered@.len() > 0 ==> sum_values(filtered@.drop_last()) < total);
        }
        Ok(filtered)
    }

    /// Acquires unspent boxes from the node wallet's reply, ordered from
    /// highest to lowest nanoErgs value.
    pub fn unspent_boxes_sorted(&self, response: &JsonValue) -> (r: Result<
        Vec<WalletBox>,
        NodeError,
    >)
        ensures
            r matches Ok(bs) && sorted_desc(bs@) && exists|n: int, parsed: Seq<WalletBox>|
                {
                    &&& #[trigger] parsed_boxes_ok(*response, n, parsed)
                    &&& bs@ == sort_desc_spec(parsed)
                    &&& bs@.to_multiset() == parsed.to_multiset()
                },
    {
        let boxes = match self.unspent_boxes(response) {
            Ok(bs) => bs,
            Err(e) => {
                return Err(e);
            },
        };
        let ghost parsed = boxes@;
        let sorted = sort_boxes_descending(boxes);
        proof {
            let n0 = choose|n: int| parsed_boxes_ok(*response, n, parsed);
            assert(parsed_boxes_ok(*response, n0, parsed));
            assert(sorted@ == sort_desc_spec(parsed));
            assert(sorted@.to_multiset() == parsed.to_multiset());
        }
        Ok(sorted)
    }

    /// Returns a sorted list of unspent boxes of the wallet's reply which
    /// cover at least the provided value `total` of nanoErgs.  This box
    /// selection strategy simply uses the largest value holding boxes from
    /// the user's wallet first.
    pub fn unspent_boxes_with_min_total(&self, total: u64, response: &JsonValue) -> (r: Result<
        Vec<WalletBox>,
        NodeError,
    >)
        ensures
            r matches Ok(sel) ==> exists|n: int, parsed: Seq<WalletBox>, full: Seq<WalletBox>|
                {
                    &&& #[trigger] parsed_boxes_ok(*response, n, parsed)
                    &&& #[trigger] sorted_desc(full)
                    &&& full.to_multiset() == parsed.to_multiset()
                    &&& sel@ =~= full.take(sel@.len() as int)
                    &&& sum_values(sel@) >= total
                    &&& sel@.len() > 0 ==> sum_values(sel@.drop_last()) < total
                    &&& total == 0 ==> sel@.len() == 0
                },
            r is Err ==> exists|n: int, parsed: Seq<WalletBox>|
                {
                    &&& #[trigger] parsed_boxes_ok(*response, n, parsed)
                    &&& sum_values(parsed) < total
                },
            r matches Err(e) ==> e is InsufficientErgsBalance,
    {
        let sorted = match self.unspent_boxes_sorted(response) {
            Ok(bs) => bs,
            Err(e) => {
                return Err(e);
            },
        };
        let ghost full = sorted@;
        let r = self.consume_boxes_until_total(total, sorted);
        proof {
            let (n0, parsed0) = choose|n: int, parsed: Seq<WalletBox>|
                #[trigger] parsed_boxes_ok(*response, n, parsed) && full.to_multiset()
                    == parsed.to_multiset();
            if r is Ok {
                let sel = r->Ok_0;
                assert(sel@ =~= full.take(sel@.len() as int));
                assert(parsed_boxes_ok(*response, n0, parsed0));
            } else {
                lemma_sum_values_permutation(full, parsed0);
                assert(parsed_boxes_ok(*response, n0, parsed0) && sum_values(parsed0) < total);
            }
        }
        r
    }

    /// Returns a list of unspent boxes of the wallet's reply which cover at
    /// least the provided value `total` of nanoErgs.  This box selection
    /// strategy simply uses the oldest unspent boxes from the user's full
    /// node wallet first: the reply's own order is kept.
    pub fn unspent_boxes_with_min_total_by_age(&self, total: u64, response: &JsonValue) -> (r:
        Result<Vec<WalletBox>, NodeError>)
        ensures
            r matches Ok(sel) ==> exists|n: int, parsed: Seq<WalletBox>|
                {
                    &&& #[trigger] parsed_boxes_ok(*response, n, parsed)
                    &&& sel@ =~= parsed.take(sel@.len() as int)
                    &&& sum_values(sel@) >= total
                    &&& sel@.len() > 0 ==> sum_values(sel@.drop_last()) < total
                    &&& total == 0 ==> sel@.len() == 0
                },
            r is Err ==> exists|n: int, parsed: Seq<WalletBox>|
                {
                    &&& #[trigger] parsed_boxes_ok(*response, n, parsed)
                    &&& sum_values(parsed) < total
                },
            r matches Err(e) ==> e is InsufficientErgsBalance,
    {
        let boxes = match self.unspent_boxes(response) {
            Ok(bs) => bs,
            Err(e) => {
                return Err(e);
            },
        };
        let ghost parsed = boxes@;
        let r = self.consume_boxes_until_total(total, boxes);
        proof {
            let n0 = choose|n: int| #[trigger] parsed_boxes_ok(*response, n, parsed);
            if r is Ok {
                let sel = r->Ok_0;
                assert(sel@ =~= parsed.take(sel@.len() as int));
                assert(parsed_boxes_ok(*response, n0, parsed));
            } else {
                assert(parsed_boxes_ok(*response, n0, parsed) && sum_values(parsed) < total);
            }
        }
        r
    }

    /// Acquires the unspent box with the highest value of Ergs inside from
    /// the wallet's reply.
    pub fn highest_value_unspent_box(&self, response: &JsonValue) -> (r: Result<
        WalletBox,
        NodeError,
    >)
        ensures
            r matches Ok(b) ==> exists|n: int, parsed: Seq<WalletBox>|
                {
                    &&& #[trigger] parsed_boxes_ok(*response, n, parsed)
                    &&& exists|i: int|
                        {
                            &&& 0 <= i < parsed.len()
                            &&& b == #[trigger] parsed[i]
                            &&& forall|j: int|
                                0 <= j < parsed.len() ==> (#[trigger] parsed[j]).value <= b.value
                            &&& forall|j: int| 0 <= j < i ==> (#[trigger] parsed[j]).value < b.value
                        }
                },
            r matches Err(e) ==> e is NoBoxesFound && exists|n: int|
                #[trigger] parsed_boxes_ok(*response, n, Seq::<WalletBox>::empty()),
    {
        let boxes = match self.unspent_boxes(response) {
            Ok(bs) => bs,
            Err(e) => {
                return Err(e);
            },
        };
        let ghost parsed = boxes@;
        let r = highest_value_box(boxes);
        proof {
            let n0 = choose|n: int| #[trigger] parsed_boxes_ok(*response, n, parsed);
            if r is Err {
                assert(parsed =~= Seq::<WalletBox>::empty());
            }
            assert(parsed_boxes_ok(*response, n0, parsed));
        }
        r
    }
}

/// The box of the highest value, and of the boxes holding it the first;
/// `NoBoxesFound` exactly when there are no boxes at all.
#[verifier::loop_isolation(false)]
pub fn highest_value_box(boxes: Vec<WalletBox>) -> (r: Result<WalletBox, NodeError>)
    ensures
        r is Ok <==> boxes@.len() > 0,
        r matches Ok(b) ==> exists|i: int|
            {
                &&& 0 <= i < boxes@.len()
                &&& b == boxes@[i]
                &&& forall|j: int| 0 <= j < boxes@.len() ==> (#[trigger] boxes@[j]).value <= b.value
                &&& forall|j: int| 0 <= j < i ==> (#[trigger] boxes@[j]).value < b.value
            },
        r matches Err(e) ==> e is NoBoxesFound && boxes@.len() == 0,
{
    if boxes.len() == 0 {
        return Err(NodeError::NoBoxesFound);
    }
    let mut best: usize = 0;
    let mut k: usize = 1;
    while k < boxes.len()
        invariant
            0 <= best < boxes@.len(),
            best < k <= boxes@.len(),
            forall|j: int| 0 <= j < k ==> (#[trigger] boxes@[j]).value <= boxes@[best as int].value,
            forall|j: int|
                0 <= j < best ==> (#[trigger] boxes@[j]).value < boxes@[best as int].value,
        decreases boxes@.len() - k,
    {
        if boxes[k].value > boxes[best].value {
            best = k;
        }
        k += 1;
    }
    let ghost ghost_best = best as int;
    let mut boxes = boxes;
    let b = boxes.swap_remove(best);
    Ok(b)
}

/// Where a box lands among already ordered boxes: after every box of equal
/// or higher value, before the first of strictly lower value.
pub open spec fn insert_desc(s: Seq<WalletBox>, b: WalletBox) -> Seq<WalletBox>
    decreases s,
{
    if s.len() == 0 {
        seq![b]
    } else if s[0].value >= b.value {
        seq![s[0]] + insert_desc(s.drop_first(), b)
    } else {
        seq![b] + s
    }
}

/// The stable descending sort of a box list: boxes are taken in their
/// given order and each lands after every earlier box of equal or higher
/// value, so boxes of equal value keep their relative order.
pub open spec fn sort_desc_spec(s: Seq<WalletBox>) -> Seq<WalletBox>
    decreases s,
{
    if s.len() == 0 {
        Seq::empty()
    } else {
        insert_desc(sort_desc_spec(s.drop_last()), s.last())
    }
}

/// Inserting before the first strictly smaller box is what `insert_desc`
/// does.
proof fn lemma_insert_desc_at(s: Seq<WalletBox>, b: WalletBox, j: int)
    requires
        0 <= j <= s.len(),
        forall|k: int| 0 <= k < j ==> (#[trigger] s[k]).value >= b.value,
        j < s.len() ==> s[j].value < b.value,
    ensures
        insert_desc(s, b) == s.insert(j, b),
    decreases s,
{
    if j == 0 {
        if s.len() == 0 {
            assert(s.insert(0, b) =~= seq![b]);
        } else {
            assert(insert_desc(s, b) == seq![b] + s);
            assert(s.insert(0, b) =~= seq![b] + s);
        }
    } else {
        assert(s[0].value >= b.value);
        assert forall|k: int| 0 <= k < j - 1 implies (#[trigger] s.drop_first()[k]).value
            >= b.value by {
            assert(s.drop_first()[k] == s[k + 1]);
        }
        assert(j - 1 < s.drop_first().len() ==> s.drop_first()[j - 1].value < b.value) by {
            if j < s.len() {
                assert(s.drop_first()[j - 1] == s[j]);
            }
        }
        lemma_insert_desc_at(s.drop_first(), b, j - 1);
        assert(insert_desc(s, b) == seq![s[0]] + s.drop_first().insert(j - 1, b));
        assert(seq![s[0]] + s.drop_first().insert(j - 1, b) =~= s.insert(j, b));
    }
}

/// Order boxes from highest to lowest value, keeping exactly the same
/// collection of boxes.  The sort is stable: each box lands after every
/// earlier box of equal or higher value, as `sort_desc_spec` writes down.
#[verifier::loop_isolation(false)]
pub fn sort_boxes_descending(boxes: Vec<WalletBox>) -> (r: Vec<WalletBox>)
    ensures
        r@ == sort_desc_spec(boxes@),
        sorted_desc(r@),
        r@.to_multiset() == boxes@.to_multiset(),
{
    broadcast use vstd::seq_lib::group_to_multiset_ensures;

    let ghost orig = boxes@;
    let mut rest = boxes;
    let mut out: Vec<WalletBox> = Vec::new();
    proof {
        assert(out@.to_multiset().add(rest@.to_multiset()) =~= orig.to_multiset());
        assert(orig.skip(0) =~= orig);
        assert(out@ == sort_desc_spec(orig.take(0)));
    }
    while rest.len() > 0
        invariant
            rest@.len() <= orig.len(),
            rest@ =~= orig.skip(orig.len() - rest@.len()),
            out@ == sort_desc_spec(orig.take(orig.len() - rest@.len())),
            sorted_desc(out@),
            out@.to_multiset().add(rest@.to_multiset()) == orig.to_multiset(),
        decreases rest@.len(),
    {
        let ghost pos = orig.len() - rest@.len();
        let ghost rest0 = rest@;
        let b = rest.remove(0);
        proof {
            assert(rest@ == rest0.remove(0));
            assert(rest0[0] == b);
            assert(b == orig[pos]);
            assert(rest@ =~= orig.skip(pos + 1));
        }
        let mut j: usize = 0;
        while j < out.len() && out[j].value >= b.value
            invariant
                j <= out@.len(),
                forall|k: int| 0 <= k < j ==> (#[trigger] out@[k]).value >= b.value,
            decreases out@.len() - j,
        {
            j += 1;
        }
        let ghost out0 = out@;
        proof {
            assert(j < out0.len() ==> out0[j as int].value < b.value);
        }
        out.insert(j, b);
        proof {
            assert(out@ == out0.insert(j as int, b));
            lemma_insert_desc_at(out0, b, j as int);
            assert(orig.take(pos + 1).drop_last() =~= orig.take(pos));
            assert(orig.take(pos + 1).last() == orig[pos]);
            assert(out@ == sort_desc_spec(orig.take(pos + 1)));
            assert forall|p: int, q: int| 0 <= p < q < out@.len() implies out@[p].value
                >= out@[q].value by {
                if p < j && q == j {
                } else if p == j && q > j {
                    assert(out@[q] == out0[q - 1]);
                    assert(out0[q - 1].value <= out0[j as int].value);
                } else if q < j {
                    assert(out@[p] == out0[p] && out@[q] == out0[q]);
                } else if p > j {
                    assert(out@[p] == out0[p - 1] && out@[q] == out0[q - 1]);
                } else if p < j && q > j {
                    assert(out@[p] == out0[p] && out@[q] == out0[q - 1]);
                    if j < out0.len() {
                        assert(out0[q - 1].value <= out0[j as int].value);
                    }
                }
            }
            assert(out@.to_multiset().add(rest@.to_multiset()) =~= orig.to_multiset());
        }
    }
    proof {
        assert(rest@.to_multiset() =~= Multiset::<WalletBox>::empty());
        assert(out@.to_multiset() =~= orig.to_multiset());
        assert(orig.take(orig.len() as int) =~= orig);
    }
    out
}

} // verus!
