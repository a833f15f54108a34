//! UTXO-set scanning: registering and deregistering node-side filters,
//! reading the boxes a scan matched, and persisting scan records.
use crate::boxes::{
    box_entry_at,
    box_entry_ok,
    boxes_match,
    entries_upto,
    entry_box_id,
    entry_value,
    page_ends_at,
    parse_box_entry,
    WalletBox,
};
use crate::document::{display_text, doc_text, push_quoted, quoted, spec_field, JsonValue};
use crate::node_interface::{NodeError, NodeInterface};
use crate::text::{
    chars_of,
    dec_digits,
    find_char_from,
    first_index_of,
    lemma_first_index_of,
    lemma_first_index_of_concat,
    is_u64_text,
    no_char,
    push_chars,
    push_dec_u64,
    str_eq,
    str_has_char,
    string_of,
    subrange_chars,
    u64_text_val,
};
use crate::types::ScanId;
use vstd::prelude::*;

verus! {

/// Scanning-related endpoints
impl NodeInterface {
    /// The body that registers a scan: the caller's scan rule document,
    /// serialized.
    pub fn register_scan_body(&self, scan_rule: &JsonValue) -> (r: String)
        ensures
            r@ == doc_text(*scan_rule),
    {
        scan_rule.dump()
    }

    /// Registers a scan with the node from its reply, and either returns
    /// the assigned scan id or an error: a reply carrying an `error` field
    /// is a rejected request, and a reply whose `scanId` is not a number
    /// cannot be read.
    pub fn register_scan(&self, response: &JsonValue) -> (r: Result<ScanId, NodeError>)
        ensures
            match r {
                Ok(id) => {
                    &&& spec_field(*response, "error"@) is Null
                    &&& is_u64_text(display_text(spec_field(*response, "scanId"@)))
                    &&& id.0 as nat == u64_text_val(display_text(spec_field(*response, "scanId"@)))
                },
                Err(NodeError::BadRequest(m)) => {
                    &&& !(spec_field(*response, "error"@) is Null)
                    &&& m@ == display_text(spec_field(*response, "error"@))
                },
                Err(NodeError::InvalidScanId(m)) => {
                    &&& spec_field(*response, "error"@) is Null
                    &&& !is_u64_text(display_text(spec_field(*response, "scanId"@)))
                    &&& m@ == display_text(spec_field(*response, "scanId"@))
                },
                _ => false,
            },
            spec_field(*response, "scanId"@) matches JsonValue::Num(k) ==> (spec_field(
                *response,
                "error"@,
            ) is Null ==> r == Ok::<ScanId, NodeError>(ScanId(k))),
    {
        parse_scan_id_reply(response)
    }

    /// The body that deregisters a scan.
    pub fn deregister_scan_body(&self, scan_id: ScanId) -> (r: String)
        ensures
            r@ == "{\n  \"scanId\": "@ + dec_digits(scan_id.0 as nat) + "\n}"@,
    {
        generate_deregister_scan_json(scan_id)
    }

    /// Deregisters a scan from the node's reply: the same success and error
    /// contract as registration, echoing back the scan id the node names.
    pub fn deregister_scan(&self, response: &JsonValue) -> (r: Result<ScanId, NodeError>)
        ensures
            match r {
                Ok(id) => {
                    &&& spec_field(*response, "error"@) is Null
                    &&& is_u64_text(display_text(spec_field(*response, "scanId"@)))
                    &&& id.0 as nat == u64_text_val(display_text(spec_field(*response, "scanId"@)))
                },
                Err(NodeError::BadRequest(m)) => {
                    &&& !(spec_field(*response, "error"@) is Null)
                    &&& m@ == display_text(spec_field(*response, "error"@))
                },
                Err(NodeError::InvalidScanId(m)) => {
                    &&& spec_field(*response, "error"@) is Null
                    &&& !is_u64_text(display_text(spec_field(*response, "scanId"@)))
                    &&& m@ == display_text(spec_field(*response, "scanId"@))
                },
                _ => false,
            },
            spec_field(*response, "scanId"@) matches JsonValue::Num(k) ==> (spec_field(
                *response,
                "error"@,
            ) is Null ==> r == Ok::<ScanId, NodeError>(ScanId(k))),
    {
        parse_scan_id_reply(response)
    }

    /// The path that asks for the unspent boxes a scan matched.
    pub fn scan_boxes_endpoint(&self, scan_id: ScanId) -> (r: String)
        ensures
            r@ == "/scan/unspentBoxes/"@ + dec_digits(scan_id.0 as nat),
    {
        let mut out: Vec<char> = Vec::new();
        push_chars(&mut out, "/scan/unspentBoxes/");
        push_dec_u64(&mut out, scan_id.0);
        string_of(&out)
    }

    /// Using a registered scan's reply, acquires the unspent boxes which
    /// have been found by said scan.  The box list ends at its first `null`
    /// or absent entry; one entry that is not a well-formed box fails the
    /// whole call with `FailedParsingBox`.
    pub fn scan_boxes(&self, response: &JsonValue) -> (r: Result<Vec<WalletBox>, NodeError>)
        ensures
            match r {
                Ok(bs) => exists|n: int|
                    {
                        &&& #[trigger] page_ends_at(*response, n)
                        &&& scan_entries_ok_upto(*response, n)
                        &&& boxes_match(bs@, entries_upto(*response, n))
                    },
                Err(NodeError::FailedParsingBox(m)) => exists|i: int|
                    {
                        &&& #[trigger] scan_fails_at(*response, i)
                        &&& m@ == display_text(box_entry_at(*response, i))
                    },
                _ => false,
            },
    {
        let entries = crate::boxes::page_box_entries(response);
        let ghost n = entries@.len() as int;
        let ghost all = entries_upto(*response, n);
        let mut out: Vec<WalletBox> = Vec::new();
        let mut i: usize = 0;
        while i < entries.len()
            invariant
                i <= entries@.len(),
                n == entries@.len(),
                all == entries_upto(*response, n),
                page_ends_at(*response, n),
                forall|j: int| 0 <= j < n ==> *(#[trigger] entries@[j]) == box_entry_at(
                    *response,
                    j,
                ),
                out@.len() == i,
                forall|j: int| 0 <= j < i ==> box_entry_ok(#[trigger] box_entry_at(*response, j)),
                boxes_match(out@, all.take(i as int)),
            decreases entries@.len() - i,
        {
            match parse_box_entry(entries[i]) {
                Some(b) => {
                    out.push(b);
                    proof {
                        assert(all.take(i + 1) =~= all.take(i as int).push(all[i as int]));
                        assert(boxes_match(out@, all.take(i + 1)));
                    }
                },
                None => {
                    proof {
                        assert(scan_fails_at(*response, i as int));
                    }
                    return Err(NodeError::FailedParsingBox(entries[i].display()));
                },
            }
            i += 1;
        }
        proof {
            assert(all.take(n) =~= all);
            assert(scan_entries_ok_upto(*response, n));
        }
        let result: Result<Vec<WalletBox>, NodeError> = Ok(out);
        proof {
            assert(boxes_match((result->Ok_0)@, entries_upto(*response, n)));
        }
        result
    }

    /// The body that manually adds a box to a scan: the scan id and the
    /// box, re-serialized to its JSON text and carried as a quoted string.
    /// The text's register order is the serializer's own and carries no
    /// further promise.  A box that did not come from the node, or that
    /// cannot be re-serialized, fails with `FailedParsingBox` naming the
    /// box id.
    pub fn add_box_to_scan_body(&self, scan_id: ScanId, b: &WalletBox) -> (r: Result<
        String,
        NodeError,
    >)
        ensures
            r is Ok <==> (b.ebox matches Some(eb) && crate::ergo::ergo_box_json_ok(eb)),
            r matches Ok(body) ==> exists|s: Seq<char>|
                body@ == "{\"scanIds\":["@ + dec_digits(scan_id.0 as nat) + "],\"box\":"@
                    + #[trigger] quoted(s) + "}"@,
            r matches Err(e) ==> (e matches NodeError::FailedParsingBox(m) && m@ == b.box_id@),
    {
        let text = match &b.ebox {
            Some(eb) => match crate::ergo::ergo_box_json(eb) {
                Some(t) => t,
                None => {
                    return Err(NodeError::FailedParsingBox(b.box_id.clone()));
                },
            },
            None => {
                return Err(NodeError::FailedParsingBox(b.box_id.clone()));
            },
        };
        let mut out: Vec<char> = Vec::new();
        push_chars(&mut out, "{\"scanIds\":[");
        push_dec_u64(&mut out, scan_id.0);
        push_chars(&mut out, "],\"box\":");
        push_quoted(&mut out, &text);
        push_chars(&mut out, "}");
        Ok(string_of(&out))
    }

    /// Using a registered scan's reply to a manual box addition, returns
    /// the node's confirmation, or `BadRequest` when the node names an
    /// error.
    pub fn add_box_to_scan(&self, response: &JsonValue) -> (r: Result<String, NodeError>)
        ensures
            match r {
                Ok(m) => spec_field(*response, "error"@) is Null && m@ == display_text(*response),
                Err(NodeError::BadRequest(m)) => {
                    &&& !(spec_field(*response, "error"@) is Null)
                    &&& m@ == display_text(spec_field(*response, "error"@))
                },
                _ => false,
            },
    {
        match response.field("error") {
            None => Ok(response.display()),
            Some(err) => {
                if err.is_null() {
                    Ok(response.display())
                } else {
                    Err(NodeError::BadRequest(err.display()))
                }
            },
        }
    }

    /// The path that asks for a box of the UTXO-set as a document.
    pub fn box_from_id_endpoint(&self, box_id: &str) -> (r: String)
        ensures
            r@ == "/utxo/byId/"@ + box_id@,
    {
        let mut out: Vec<char> = Vec::new();
        push_chars(&mut out, "/utxo/byId/");
        push_chars(&mut out, box_id);
        string_of(&out)
    }

    /// Given the node's reply for a box looked up by id, read the box;
    /// a reply that is not a well-formed box fails with `FailedParsingBox`.
    pub fn box_from_id(&self, response: &JsonValue) -> (r: Result<WalletBox, NodeError>)
        ensures
            match r {
                Ok(b) => {
                    &&& box_entry_ok(*response)
                    &&& b.box_id@ == entry_box_id(*response)
                    &&& b.value == entry_value(*response)
                    &&& b.ebox is Some
                },
                Err(NodeError::FailedParsingBox(m)) => !box_entry_ok(*response) && m@ == doc_text(
                    *response,
                ),
                _ => false,
            },
    {
        match parse_box_entry(response) {
            Some(b) => Ok(b),
            None => Err(NodeError::FailedParsingBox(response.dump())),
        }
    }
}

/// Whether every entry before position `n` of a reply's box list is a
/// well-formed box.
pub open spec fn scan_entries_ok_upto(v: JsonValue, n: int) -> bool {
    forall|j: int| 0 <= j < n ==> box_entry_ok(#[trigger] box_entry_at(v, j))
}

/// Whether a reply's box list is well-formed up to position `i` and then
/// holds an entry that is present but not a well-formed box.
pub open spec fn scan_fails_at(v: JsonValue, i: int) -> bool {
    &&& 0 <= i
    &&& scan_entries_ok_upto(v, i)
    &&& forall|j: int| 0 <= j < i ==> !(#[trigger] box_entry_at(v, j) is Null)
    &&& !(box_entry_at(v, i) is Null)
    &&& !box_entry_ok(box_entry_at(v, i))
}

/// Read a scan id out of a register or deregister reply.
fn parse_scan_id_reply(response: &JsonValue) -> (r: Result<ScanId, NodeError>)
    ensures
        match r {
            Ok(id) => {
                &&& spec_field(*response, "error"@) is Null
                &&& is_u64_text(display_text(spec_field(*response, "scanId"@)))
                &&& id.0 as nat == u64_text_val(display_text(spec_field(*response, "scanId"@)))
            },
            Err(NodeError::BadRequest(m)) => {
                &&& !(spec_field(*response, "error"@) is Null)
                &&& m@ == display_text(spec_field(*response, "error"@))
            },
            Err(NodeError::InvalidScanId(m)) => {
                &&& spec_field(*response, "error"@) is Null
                &&& !is_u64_text(display_text(spec_field(*response, "scanId"@)))
                &&& m@ == display_text(spec_field(*response, "scanId"@))
            },
            _ => false,
        },
        spec_field(*response, "scanId"@) matches JsonValue::Num(k) ==> (spec_field(
            *response,
            "error"@,
        ) is Null ==> r == Ok::<ScanId, NodeError>(ScanId(k))),
{
    proof {
        match spec_field(*response, "scanId"@) {
            JsonValue::Num(k) => crate::text::lemma_dec_digits_value(k as nat),
            _ => (),
        }
    }
    let error_is_null = match response.field("error") {
        None => true,
        Some(err) => err.is_null(),
    };
    if !error_is_null {
        let err_text = match response.field("error") {
            Some(err) => err.display(),
            None => JsonValue::Null.display(),
        };
        return Err(NodeError::BadRequest(err_text));
    }
    let id_text = match response.field("scanId") {
        Some(f) => f.display(),
        None => JsonValue::Null.display(),
    };
    ScanId::parse(id_text.as_str())
}

/// The pretty-printed body that deregisters a scan.
pub fn generate_deregister_scan_json(scan_id: ScanId) -> (r: String)
    ensures
        r@ == "{\n  \"scanId\": "@ + dec_digits(scan_id.0 as nat) + "\n}"@,
{
    let mut out: Vec<char> = Vec::new();
    push_chars(&mut out, "{\n  \"scanId\": ");
    push_dec_u64(&mut out, scan_id.0);
    push_chars(&mut out, "\n}");
    string_of(&out)
}

/// A named, registered UTXO-set filter: its name, the id text the node
/// assigned (or the `null` sentinel when registration never succeeded),
/// and the node it lives on.
pub struct Scan {
    pub name: String,
    pub id: String,
    pub node: NodeInterface,
}

/// One persisted scan record: the id, a comma, the name, a newline.
pub open spec fn record_text(sc: Scan) -> Seq<char> {
    sc.id@ + seq![','] + sc.name@ + seq!['\n']
}

/// The persisted form of a list of scans, in order.
pub open spec fn scans_text(s: Seq<Scan>) -> Seq<char>
    decreases s,
{
    if s.len() == 0 {
        Seq::empty()
    } else {
        record_text(s[0]) + scans_text(s.drop_first())
    }
}

/// The persisted form splits over concatenation.
pub proof fn lemma_scans_text_concat(a: Seq<Scan>, b: Seq<Scan>)
    ensures
        scans_text(a + b) == scans_text(a) + scans_text(b),
    decreases a,
{
    if a.len() == 0 {
        assert(a + b =~= b);
        assert(scans_text(a) + scans_text(b) =~= scans_text(b));
    } else {
        assert((a + b).drop_first() =~= a.drop_first() + b);
        lemma_scans_text_concat(a.drop_first(), b);
        assert((a + b)[0] == a[0]);
        assert(scans_text(a + b) =~= scans_text(a) + scans_text(b));
    }
}

/// The records a persisted text carries: each line is an id, the first
/// comma, and the name; the whole text must be made of full lines.
pub open spec fn parse_scans_spec(s: Seq<char>) -> Option<Seq<(Seq<char>, Seq<char>)>>
    decreases s.len(),
{
    if s.len() == 0 {
        Some(Seq::empty())
    } else {
        let j = first_index_of(s, '\n');
        if j < 0 || j >= s.len() {
            None
        } else {
            let line = s.take(j);
            let k = first_index_of(line, ',');
            if k < 0 {
                None
            } else {
                match parse_scans_spec(s.skip(j + 1)) {
                    Some(rest) => Some(seq![(line.take(k), line.skip(k + 1))] + rest),
                    None => None,
                }
            }
        }
    }
}

/// Whether a scan survives persistence letter for letter: its id holds no
/// comma and no newline, and its name no newline.
pub open spec fn scan_wf(sc: Scan) -> bool {
    &&& no_char(sc.id@, ',')
    &&& no_char(sc.id@, '\n')
    &&& no_char(sc.name@, '\n')
}

/// Persisting a list of scans and reading the text back yields exactly the
/// same `(id, name)` pairs, in the same order.
pub proof fn lemma_scans_round_trip(scans: Seq<Scan>)
    requires
        forall|i: int| 0 <= i < scans.len() ==> scan_wf(#[trigger] scans[i]),
    ensures
        parse_scans_spec(scans_text(scans)) == Some(
            scans.map_values(|sc: Scan| (sc.id@, sc.name@)),
        ),
    decreases scans,
{
    if scans.len() == 0 {
        assert(scans.map_values(|sc: Scan| (sc.id@, sc.name@)) =~= Seq::<
            (Seq<char>, Seq<char>),
        >::empty());
    } else {
        let sc = scans[0];
        let rest = scans.drop_first();
        let line = sc.id@ + seq![','] + sc.name@;
        let whole = scans_text(scans);
        assert(forall|i: int| 0 <= i < rest.len() ==> scan_wf(#[trigger] rest[i]));
        lemma_scans_round_trip(rest);
        assert forall|i: int| 0 <= i < line.len() implies (#[trigger] line[i]) != '\n' by {
            if i < sc.id@.len() {
                assert(line[i] == sc.id@[i]);
            } else if i == sc.id@.len() {
                assert(line[i] == ',');
            } else {
                assert(line[i] == sc.name@[i - sc.id@.len() - 1]);
            }
        }
        assert(whole =~= line + (seq!['\n'] + scans_text(rest)));
        lemma_first_index_of_concat(line, seq!['\n'] + scans_text(rest), '\n');
        assert((seq!['\n'] + scans_text(rest))[0] == '\n');
        assert(first_index_of(seq!['\n'] + scans_text(rest), '\n') == 0);
        let j = first_index_of(whole, '\n');
        assert(j == line.len());
        assert(whole.take(j) =~= line);
        assert(whole.skip(j + 1) =~= scans_text(rest));
        lemma_first_index_of_concat(sc.id@, seq![','] + sc.name@, ',');
        assert((seq![','] + sc.name@)[0] == ',');
        assert(first_index_of(seq![','] + sc.name@, ',') == 0);
        assert(line =~= sc.id@ + (seq![','] + sc.name@));
        let k = first_index_of(line, ',');
        assert(k == sc.id@.len());
        assert(line.take(k) =~= sc.id@);
        assert(line.skip(k + 1) =~= sc.name@);
        assert(whole.len() > 0);
        assert(scans.map_values(|sc2: Scan| (sc2.id@, sc2.name@)) =~= seq![(sc.id@, sc.name@)]
            + rest.map_values(|sc2: Scan| (sc2.id@, sc2.name@)));
    }
}

/// Whether a scan record may be persisted: its id is not the `null`
/// sentinel of a registration that never succeeded, and it survives the
/// line format letter for letter.
pub open spec fn scan_record_ok(sc: Scan) -> bool {
    sc.id@ != "null"@ && scan_wf(sc)
}

/// Persist a list of scans as one text, one record per line.  A scan whose
/// id still reads `null` never finished registering: the whole operation
/// fails with `FailedRegisteringScan` naming the first such scan.  A scan
/// the line format cannot carry letter for letter (a comma or newline in
/// the id, a newline in the name) is refused the same way, with `Other`
/// naming it.  Either way no text is produced.
#[verifier::loop_isolation(false)]
pub fn serialize_scans(scans: &Vec<Scan>) -> (r: Result<String, NodeError>)
    ensures
        match r {
            Ok(text) => {
                &&& forall|i: int| 0 <= i < scans@.len() ==> scan_record_ok(#[trigger] scans@[i])
                &&& text@ == scans_text(scans@)
            },
            Err(e) => exists|i: int|
                {
                    &&& 0 <= i < scans@.len()
                    &&& !(#[trigger] scan_record_ok(scans@[i]))
                    &&& forall|j: int| 0 <= j < i ==> scan_record_ok(#[trigger] scans@[j])
                    &&& match e {
                        NodeError::FailedRegisteringScan(m) => scans@[i].id@ == "null"@ && m@
                            == scans@[i].name@,
                        NodeError::Other(m) => scans@[i].id@ != "null"@ && !scan_wf(scans@[i])
                            && m@ == scans@[i].name@,
                        _ => false,
                    }
                },
        },
{
    let mut i: usize = 0;
    while i < scans.len()
        invariant
            i <= scans@.len(),
            forall|j: int| 0 <= j < i ==> scan_record_ok(#[trigger] scans@[j]),
        decreases scans@.len() - i,
    {
        if str_eq(scans[i].id.as_str(), "null") {
            proof {
                assert(!scan_record_ok(scans@[i as int]));
            }
            return Err(NodeError::FailedRegisteringScan(scans[i].name.clone()));
        }
        let wf = !str_has_char(scans[i].id.as_str(), ',') && !str_has_char(
            scans[i].id.as_str(),
            '\n',
        ) && !str_has_char(scans[i].name.as_str(), '\n');
        if !wf {
            proof {
                assert(!scan_wf(scans@[i as int]));
                assert(!scan_record_ok(scans@[i as int]));
            }
            return Err(NodeError::Other(scans[i].name.clone()));
        }
        i += 1;
    }
    let mut out: Vec<char> = Vec::new();
    let mut k: usize = 0;
    proof {
        assert(scans@.take(0) =~= Seq::<Scan>::empty());
    }
    while k < scans.len()
        invariant
            k <= scans@.len(),
            forall|j: int| 0 <= j < scans@.len() ==> scan_record_ok(#[trigger] scans@[j]),
            out@ == scans_text(scans@.take(k as int)),
        decreases scans@.len() - k,
    {
        push_chars(&mut out, scans[k].id.as_str());
        out.push(',');
        push_chars(&mut out, scans[k].name.as_str());
        out.push('\n');
        k += 1;
        proof {
            assert(scans@.take(k as int) =~= scans@.take(k - 1) + seq![scans@[k - 1]]);
            lemma_scans_text_concat(scans@.take(k - 1), seq![scans@[k - 1]]);
            assert(seq![scans@[k - 1]].drop_first() =~= Seq::<Scan>::empty());
            assert(scans_text(Seq::<Scan>::empty()) =~= Seq::<char>::empty());
            assert(scans_text(seq![scans@[k - 1]]) =~= record_text(scans@[k - 1]));
            assert(out@ =~= scans_text(scans@.take(k as int)));
        }
    }
    proof {
        assert(scans@.take(scans@.len() as int) =~= scans@);
    }
    Ok(string_of(&out))
}

/// Read a persisted scan list back into scan handles on the given node.
/// A text that is not made of full `id,name` lines cannot be read.
#[verifier::loop_isolation(false)]
pub fn parse_scans(text: &str, node: &NodeInterface) -> (r: Result<Vec<Scan>, NodeError>)
    ensures
        match r {
            Ok(scans) => {
                &&& parse_scans_spec(text@) == Some(
                    scans@.map_values(|sc: Scan| (sc.id@, sc.name@)),
                )
                &&& forall|i: int| 0 <= i < scans@.len() ==> (#[trigger] scans@[i]).node == *node
            },
            Err(e) => parse_scans_spec(text@) is None && (e matches NodeError::Other(m) && m@
                == text@),
        },
{
    let cs = chars_of(text);
    let ghost whole = text@;
    let mut out: Vec<Scan> = Vec::new();
    let mut pos: usize = 0;
    proof {
        assert(whole.skip(0) =~= whole);
        assert(out@.map_values(|sc: Scan| (sc.id@, sc.name@)) =~= Seq::<
            (Seq<char>, Seq<char>),
        >::empty());
        if parse_scans_spec(whole) is Some {
            assert(out@.map_values(|sc: Scan| (sc.id@, sc.name@)) + parse_scans_spec(
                whole,
            )->Some_0 =~= parse_scans_spec(whole)->Some_0);
        }
    }
    while pos < cs.len()
        invariant
            pos <= cs@.len(),
            cs@ == whole,
            parse_scans_spec(whole) == match parse_scans_spec(whole.skip(pos as int)) {
                Some(rest) => Some(out@.map_values(|sc: Scan| (sc.id@, sc.name@)) + rest),
                None => None::<Seq<(Seq<char>, Seq<char>)>>,
            },
            forall|i: int| 0 <= i < out@.len() ==> (#[trigger] out@[i]).node == *node,
        decreases cs@.len() - pos,
    {
        let ghost tail = whole.skip(pos as int);
        let j = match find_char_from(&cs, pos, '\n') {
            Some(j) => j,
            None => {
                return Err(NodeError::Other(text.to_owned()));
            },
        };
        proof {
            assert(whole.take(j as int).skip(pos as int) =~= tail.take(j - pos));
        }
        let k = match find_char_from(&cs, pos, ',') {
            Some(k) => k,
            None => {
                proof {
                    lemma_first_index_of(tail, ',');
                    lemma_first_index_of(tail.take(j - pos), ',');
                    assert forall|i: int| 0 <= i < tail.take(j - pos).len() implies (
                    #[trigger] tail.take(j - pos)[i]) != ',' by {
                        assert(tail.take(j - pos)[i] == tail[i]);
                    }
                    assert(first_index_of(tail.take(j - pos), ',') < 0) by {
                        if first_index_of(tail.take(j - pos), ',') >= 0 {
                            assert(tail.take(j - pos)[first_index_of(tail.take(j - pos), ',')]
                                == ',');
                        }
                    }
                }
                return Err(NodeError::Other(text.to_owned()));
            },
        };
        if k >= j {
            proof {
                lemma_first_index_of(tail, ',');
                lemma_first_index_of(tail.take(j - pos), ',');
                assert forall|i: int| 0 <= i < tail.take(j - pos).len() implies (
                #[trigger] tail.take(j - pos)[i]) != ',' by {
                    assert(tail.take(j - pos)[i] == tail[i]);
                    assert(tail[i] != ',') by {
                        lemma_first_index_of(tail, ',');
                        assert(tail.take(k - pos)[i] == tail[i]);
                    }
                }
                assert(first_index_of(tail.take(j - pos), ',') < 0) by {
                    if first_index_of(tail.take(j - pos), ',') >= 0 {
                        assert(tail.take(j - pos)[first_index_of(tail.take(j - pos), ',')] == ',');
                    }
                }
            }
            return Err(NodeError::Other(text.to_owned()));
        }
        let id_chars = subrange_chars(&cs, pos, k);
        let name_chars = subrange_chars(&cs, k + 1, j);
        let id = string_of(&id_chars);
        let name = string_of(&name_chars);
        let sc = Scan { name, id, node: node.clone() };
        out.push(sc);
        proof {
            let line = tail.take(j - pos);
            assert(first_index_of(tail, '\n') == j - pos);
            assert(first_index_of(line, ',') == k - pos) by {
                lemma_first_index_of(tail, ',');
                assert(no_char(tail.take(k - pos), ','));
                assert(tail[k - pos] == ',');
                assert(line.skip(k - pos)[0] == tail[k - pos]);
                lemma_first_index_of_concat(tail.take(k - pos), line.skip(k - pos), ',');
                assert(tail.take(k - pos) + line.skip(k - pos) =~= line);
                assert(first_index_of(line.skip(k - pos), ',') == 0);
            }
            assert(line.take(k - pos) =~= whole.subrange(pos as int, k as int));
            assert(line.skip(k - pos + 1) =~= whole.subrange(k + 1, j as int));
            assert(tail.skip(j - pos + 1) =~= whole.skip(j + 1));
            assert(out@.map_values(|sc2: Scan| (sc2.id@, sc2.name@)) =~= out@.drop_last(
            ).map_values(|sc2: Scan| (sc2.id@, sc2.name@)) + seq![(line.take(k - pos), line.skip(k - pos + 1))]);
        }
        pos = j + 1;
    }
    proof {
        assert(whole.skip(whole.len() as int).len() == 0);
    }
    let result: Result<Vec<Scan>, NodeError> = Ok(out);
    proof {
        assert(parse_scans_spec(whole) == Some(
            (result->Ok_0)@.map_values(|sc: Scan| (sc.id@, sc.name@)),
        ));
    }
    result
}

} // verus!
