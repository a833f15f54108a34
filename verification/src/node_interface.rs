//! The `NodeInterface` type and the interpretation of the node's replies for
//! the wallet, script-conversion and info endpoints.
//!
//! Every method that in a running application needs a node round trip is
//! written here as a pure step: a `*_endpoint` method builds the request
//! path, and the method named after the operation interprets the reply,
//! handed in as an already decoded [`JsonValue`] document.  The embedding
//! application owns the transport in between.
use crate::document::{display_text, doc_text, spec_field, JsonValue};
use crate::text::{
    chars_of,
    dec_digits,
    find_char_from,
    first_index_of,
    is_u64_text,
    parse_u64,
    push_chars,
    push_dec_u64,
    seq_filter_push,
    split_on,
    string_of,
    trim_chars,
    trim_spec,
    u64_text_val,
};
use vstd::prelude::*;
use vstd::string::*;

verus! {

/// The closed set of failure kinds every operation of this crate reports.
#[derive(Debug, Clone)]
pub enum NodeError {
    NodeUnreachable,
    FailedParsingNodeResponse(String),
    FailedParsingBox(String),
    NoBoxesFound,
    InsufficientErgsBalance,
    FailedRegisteringScan(String),
    BadRequest(String),
    NoAddressesInWallet,
    NodeSyncing,
    YamlError(String),
    Other(String),
    FailedParsingWalletStatus(String),
    InvalidScanId(String),
}

/// The text that describes an error to a person.
pub open spec fn message_of(e: NodeError) -> Seq<char> {
    match e {
        NodeError::NodeUnreachable => "The configured node is unreachable. Please ensure your config is correctly filled out and the node is running."@,
        NodeError::FailedParsingNodeResponse(s) => "Failed reading response from node: "@ + s@,
        NodeError::FailedParsingBox(s) => "Failed parsing JSON box from node: "@ + s@,
        NodeError::NoBoxesFound => "No Boxes Were Found."@,
        NodeError::InsufficientErgsBalance => "An insufficient number of Ergs were found."@,
        NodeError::FailedRegisteringScan(s) => "Failed registering UTXO-set scan with the node: "@
            + s@,
        NodeError::BadRequest(s) => "The node rejected the request you provided.\nNode Response: "@
            + s@,
        NodeError::NoAddressesInWallet => "The node wallet has no addresses."@,
        NodeError::NodeSyncing => "The node is still syncing."@,
        NodeError::YamlError(s) => "Error while processing Node Interface Config Yaml: "@ + s@,
        NodeError::Other(s) => s@,
        NodeError::FailedParsingWalletStatus(s) => "Failed parsing wallet status from node: "@
            + s@,
        NodeError::InvalidScanId(s) => "Failed parsing scan id: "@ + s@,
    }
}

impl NodeError {
    /// The text that describes this error to a person.
    pub fn message(&self) -> (r: String)
        ensures
            r@ == message_of(*self),
    {
        let mut out: Vec<char> = Vec::new();
        match self {
            NodeError::NodeUnreachable => {
                push_chars(
                    &mut out,
                    "The configured node is unreachable. Please ensure your config is correctly filled out and the node is running.",
                );
            },
            NodeError::FailedParsingNodeResponse(s) => {
                push_chars(&mut out, "Failed reading response from node: ");
                push_chars(&mut out, s.as_str());
            },
            NodeError::FailedParsingBox(s) => {
                push_chars(&mut out, "Failed parsing JSON box from node: ");
                push_chars(&mut out, s.as_str());
            },
            NodeError::NoBoxesFound => {
                push_chars(&mut out, "No Boxes Were Found.");
            },
            NodeError::InsufficientErgsBalance => {
                push_chars(&mut out, "An insufficient number of Ergs were found.");
            },
            NodeError::FailedRegisteringScan(s) => {
                push_chars(&mut out, "Failed registering UTXO-set scan with the node: ");
                push_chars(&mut out, s.as_str());
            },
            NodeError::BadRequest(s) => {
                push_chars(&mut out, "The node rejected the request you provided.\nNode Response: ");
                push_chars(&mut out, s.as_str());
            },
            NodeError::NoAddressesInWallet => {
                push_chars(&mut out, "The node wallet has no addresses.");
            },
            NodeError::NodeSyncing => {
                push_chars(&mut out, "The node is still syncing.");
            },
            NodeError::YamlError(s) => {
                push_chars(&mut out, "Error while processing Node Interface Config Yaml: ");
                push_chars(&mut out, s.as_str());
            },
            NodeError::Other(s) => {
                push_chars(&mut out, s.as_str());
            },
            NodeError::FailedParsingWalletStatus(s) => {
                push_chars(&mut out, "Failed parsing wallet status from node: ");
                push_chars(&mut out, s.as_str());
            },
            NodeError::InvalidScanId(s) => {
                push_chars(&mut out, "Failed parsing scan id: ");
                push_chars(&mut out, s.as_str());
            },
        }
        string_of(&out)
    }
}

/// The `NodeInterface` struct which holds the relevant Ergo node data: where
/// the node listens and the api key that authorizes wallet operations.
#[derive(Debug)]
pub struct NodeInterface {
    pub api_key: String,
    pub ip: String,
    pub port: String,
}

impl Clone for NodeInterface {
    /// Cloning a `NodeInterface` duplicates only configuration.
    fn clone(&self) -> (r: Self)
        ensures
            r == *self,
    {
        NodeInterface {
            api_key: self.api_key.clone(),
            ip: self.ip.clone(),
            port: self.port.clone(),
        }
    }
}

/// Whether `address` has the mainnet P2PK prefix.
pub fn is_mainnet_address(address: &str) -> (r: bool)
    ensures
        r == (address@.len() > 0 && address@[0] == '9'),
{
    let cs = chars_of(address);
    cs.len() > 0 && cs[0] == '9'
}

/// Whether `address` has the testnet P2PK prefix.
pub fn is_testnet_address(address: &str) -> (r: bool)
    ensures
        r == (address@.len() > 0 && address@[0] == '3'),
{
    let cs = chars_of(address);
    cs.len() > 0 && cs[0] == '3'
}

impl NodeInterface {
    /// Create a new `NodeInterface` using details about the Node
    pub fn new(api_key: &str, ip: &str, port: &str) -> (r: NodeInterface)
        ensures
            r.api_key@ == api_key@,
            r.ip@ == ip@,
            r.port@ == port@,
    {
        NodeInterface { api_key: api_key.to_owned(), ip: ip.to_owned(), port: port.to_owned() }
    }

    /// Returns `http://ip:port` using `ip` and `port` from self
    pub fn node_url(&self) -> (r: String)
        ensures
            r@ == "http://"@ + self.ip@ + ":"@ + self.port@,
    {
        let mut out: Vec<char> = Vec::new();
        push_chars(&mut out, "http://");
        push_chars(&mut out, self.ip.as_str());
        push_chars(&mut out, ":");
        push_chars(&mut out, self.port.as_str());
        string_of(&out)
    }

    /// The path that asks for the serialized ErgoTree of a P2S address.
    pub fn p2s_to_tree_endpoint(&self, address: &str) -> (r: String)
        ensures
            r@ == "/script/addressToTree/"@ + address@,
    {
        concat_path("/script/addressToTree/", address)
    }

    /// Given a P2S Ergo address, extract the hex-encoded serialized
    /// ErgoTree (script) from the node's reply.
    pub fn p2s_to_tree(&self, response: &JsonValue) -> (r: Result<String, NodeError>)
        ensures
            r matches Ok(t) && t@ == display_text(spec_field(*response, "tree"@)),
    {
        Ok(display_field(response, "tree"))
    }

    /// The path that asks for the Sigma byte array of a P2S address.
    pub fn p2s_to_bytes_endpoint(&self, address: &str) -> (r: String)
        ensures
            r@ == "/script/addressToBytes/"@ + address@,
    {
        concat_path("/script/addressToBytes/", address)
    }

    /// Given a P2S Ergo address, convert it to a hex-encoded Sigma byte
    /// array constant from the node's reply.
    pub fn p2s_to_bytes(&self, response: &JsonValue) -> (r: Result<String, NodeError>)
        ensures
            r matches Ok(t) && t@ == display_text(spec_field(*response, "bytes"@)),
    {
        Ok(display_field(response, "bytes"))
    }

    /// The path that asks for the raw EC point of a P2PK address.
    pub fn p2pk_to_raw_endpoint(&self, address: &str) -> (r: String)
        ensures
            r@ == "/utils/addressToRaw/"@ + address@,
    {
        concat_path("/utils/addressToRaw/", address)
    }

    /// Given an Ergo P2PK Address, convert it to a raw hex-encoded EC point
    /// from the node's reply.
    pub fn p2pk_to_raw(&self, response: &JsonValue) -> (r: Result<String, NodeError>)
        ensures
            r matches Ok(t) && t@ == display_text(spec_field(*response, "raw"@)),
    {
        Ok(display_field(response, "raw"))
    }

    /// Given an Ergo P2PK Address, convert it to a raw hex-encoded EC point
    /// and prepend the type bytes so it is encoded and ready to be used in a
    /// register.
    pub fn p2pk_to_raw_for_register(&self, response: &JsonValue) -> (r: Result<String, NodeError>)
        ensures
            r matches Ok(t) && t@ == "07"@ + display_text(spec_field(*response, "raw"@)),
    {
        let raw = display_field(response, "raw");
        let mut out: Vec<char> = Vec::new();
        push_chars(&mut out, "07");
        push_chars(&mut out, raw.as_str());
        Ok(string_of(&out))
    }

    /// The path that asks for the P2PK address of a raw EC point.
    pub fn raw_to_p2pk_endpoint(&self, raw: &str) -> (r: String)
        ensures
            r@ == "/utils/rawToAddress/"@ + raw@,
    {
        concat_path("/utils/rawToAddress/", raw)
    }

    /// Given a raw hex-encoded EC point, convert it to a P2PK address from
    /// the node's reply.
    pub fn raw_to_p2pk(&self, response: &JsonValue) -> (r: Result<String, NodeError>)
        ensures
            r matches Ok(t) && t@ == display_text(spec_field(*response, "address"@)),
    {
        Ok(display_field(response, "address"))
    }

    /// The path that asks for the P2PK address of a register-encoded EC
    /// point (its two leading type characters are dropped).
    pub fn raw_from_register_to_p2pk_endpoint(&self, typed_raw: &str) -> (r: String)
        requires
            typed_raw@.len() >= 2,
        ensures
            r@ == "/utils/rawToAddress/"@ + typed_raw@.skip(2),
    {
        let len = typed_raw.unicode_len();
        let stripped = typed_raw.substring_char(2, len);
        concat_path("/utils/rawToAddress/", stripped)
    }

    /// Given a raw hex-encoded EC point from a register (thus with type
    /// encoded characters in front), convert it to a P2PK address from the
    /// node's reply.
    pub fn raw_from_register_to_p2pk(&self, response: &JsonValue) -> (r: Result<
        String,
        NodeError,
    >)
        ensures
            r matches Ok(t) && t@ == display_text(spec_field(*response, "address"@)),
    {
        self.raw_to_p2pk(response)
    }

    /// The path that asks for a box of the UTXO-set in serialized form.
    pub fn serialized_box_from_id_endpoint(&self, box_id: &str) -> (r: String)
        ensures
            r@ == "/utxo/byIdBinary/"@ + box_id@,
    {
        concat_path("/utxo/byIdBinary/", box_id)
    }

    /// Given a box id return the given box (which must be part of the
    /// UTXO-set) as a serialized string in Base16 encoding, from the node's
    /// reply.
    pub fn serialized_box_from_id(&self, response: &JsonValue) -> (r: Result<String, NodeError>)
        ensures
            r matches Ok(t) && t@ == display_text(spec_field(*response, "bytes"@)),
    {
        Ok(display_field(response, "bytes"))
    }

    /// Get the current nanoErgs balance held in the Ergo Node wallet from
    /// the node's reply.  A missing balance means the node is still syncing;
    /// a non-numeric one cannot be read.
    pub fn wallet_nano_ergs_balance(&self, response: &JsonValue) -> (r: Result<u64, NodeError>)
        ensures
            match r {
                Ok(n) => spec_field(*response, "balance"@) == JsonValue::Num(n),
                Err(NodeError::NodeSyncing) => spec_field(*response, "balance"@) is Null,
                Err(NodeError::FailedParsingNodeResponse(m)) => {
                    &&& !(spec_field(*response, "balance"@) is Null)
                    &&& !(spec_field(*response, "balance"@) is Num)
                    &&& m@ == display_text(*response)
                },
                _ => false,
            },
    {
        match response.field("balance") {
            None => Err(NodeError::NodeSyncing),
            Some(balance) => match balance {
                JsonValue::Null => Err(NodeError::NodeSyncing),
                JsonValue::Num(n) => Ok(*n),
                _ => Err(NodeError::FailedParsingNodeResponse(response.display())),
            },
        }
    }

    /// Get the current block height of the blockchain from the node's
    /// reply.  A missing height means the node is still syncing.
    pub fn current_block_height(&self, response: &JsonValue) -> (r: Result<u64, NodeError>)
        ensures
            match r {
                Ok(n) => {
                    &&& !(spec_field(*response, "fullHeight"@) is Null)
                    &&& is_u64_text(display_text(spec_field(*response, "fullHeight"@)))
                    &&& n as nat == u64_text_val(
                        display_text(spec_field(*response, "fullHeight"@)),
                    )
                },
                Err(NodeError::NodeSyncing) => spec_field(*response, "fullHeight"@) is Null,
                Err(NodeError::FailedParsingNodeResponse(m)) => {
                    &&& !(spec_field(*response, "fullHeight"@) is Null)
                    &&& !is_u64_text(display_text(spec_field(*response, "fullHeight"@)))
                    &&& m@ == display_text(*response)
                },
                _ => false,
            },
            spec_field(*response, "fullHeight"@) matches JsonValue::Num(k) ==> r == Ok::<
                u64,
                NodeError,
            >(k),
    {
        proof {
            match spec_field(*response, "fullHeight"@) {
                JsonValue::Num(k) => crate::text::lemma_dec_digits_value(k as nat),
                _ => (),
            }
        }
        match response.field("fullHeight") {
            None => Err(NodeError::NodeSyncing),
            Some(height) => {
                if height.is_null() {
                    Err(NodeError::NodeSyncing)
                } else {
                    let text = height.display();
                    match parse_u64(text.as_str()) {
                        Some(n) => Ok(n),
                        None => Err(NodeError::FailedParsingNodeResponse(response.display())),
                    }
                }
            },
        }
    }

    /// The path that asks for the recommended fee for a transaction of
    /// `bytes` size that should wait at most `wait_time` minutes.
    pub fn get_recommended_fee_endpoint(&self, bytes: u64, wait_time: u64) -> (r: String)
        ensures
            r@ == "/transactions/getFee?bytes="@ + dec_digits(bytes as nat) + "&waitTime="@
                + dec_digits(wait_time as nat),
    {
        let mut out: Vec<char> = Vec::new();
        push_chars(&mut out, "/transactions/getFee?bytes=");
        push_dec_u64(&mut out, bytes);
        push_chars(&mut out, "&waitTime=");
        push_dec_u64(&mut out, wait_time);
        string_of(&out)
    }

    /// Gets the recommended fee for a transaction from the node's reply,
    /// which is the bare fee value.
    pub fn get_recommended_fee(&self, response: &JsonValue) -> (r: Result<u64, NodeError>)
        ensures
            match r {
                Ok(n) => *response == JsonValue::Num(n),
                Err(NodeError::FailedParsingNodeResponse(m)) => !(*response is Num) && m@
                    == display_text(*response),
                _ => false,
            },
    {
        match response {
            JsonValue::Num(n) => Ok(*n),
            _ => Err(NodeError::FailedParsingNodeResponse(response.display())),
        }
    }

    /// Get wallet status from the node's `/wallet/status` reply.
    pub fn wallet_status(&self, response: &JsonValue) -> (r: Result<WalletStatus, NodeError>)
        ensures
            match r {
                Ok(w) => {
                    &&& spec_field(*response, "isInitialized"@) == JsonValue::Bool(w.initialized)
                    &&& spec_field(*response, "isUnlocked"@) == JsonValue::Bool(w.unlocked)
                    &&& spec_field(*response, "walletHeight"@) == JsonValue::Num(w.height)
                    &&& match w.change_address {
                        Some(a) => spec_field(*response, "changeAddress"@) == JsonValue::Str(a),
                        None => spec_field(*response, "changeAddress"@) is Null,
                    }
                    &&& match w.error {
                        Some(m) => spec_field(*response, "error"@) == JsonValue::Str(m),
                        None => spec_field(*response, "error"@) is Null,
                    }
                },
                Err(NodeError::FailedParsingWalletStatus(m)) => {
                    &&& {
                        ||| !(spec_field(*response, "isInitialized"@) is Bool)
                        ||| !(spec_field(*response, "isUnlocked"@) is Bool)
                        ||| !(spec_field(*response, "walletHeight"@) is Num)
                        ||| !(spec_field(*response, "changeAddress"@) is Null || spec_field(
                            *response,
                            "changeAddress"@,
                        ) is Str)
                        ||| !(spec_field(*response, "error"@) is Null || spec_field(
                            *response,
                            "error"@,
                        ) is Str)
                    }
                    &&& m@ == doc_text(*response)
                },
                _ => false,
            },
    {
        let initialized = match response.field("isInitialized") {
            Some(JsonValue::Bool(b)) => *b,
            _ => {
                return Err(NodeError::FailedParsingWalletStatus(response.dump()));
            },
        };
        let unlocked = match response.field("isUnlocked") {
            Some(JsonValue::Bool(b)) => *b,
            _ => {
                return Err(NodeError::FailedParsingWalletStatus(response.dump()));
            },
        };
        let height = match response.field("walletHeight") {
            Some(JsonValue::Num(n)) => *n,
            _ => {
                return Err(NodeError::FailedParsingWalletStatus(response.dump()));
            },
        };
        let change_address = match response.field("changeAddress") {
            Some(JsonValue::Str(s)) => Some(s.clone()),
            Some(JsonValue::Null) => None,
            None => None,
            _ => {
                return Err(NodeError::FailedParsingWalletStatus(response.dump()));
            },
        };
        let error = match response.field("error") {
            Some(JsonValue::Str(s)) => Some(s.clone()),
            Some(JsonValue::Null) => None,
            None => None,
            _ => {
                return Err(NodeError::FailedParsingWalletStatus(response.dump()));
            },
        };
        Ok(WalletStatus { initialized, unlocked, change_address, height, error })
    }
}

/// The state of the node's wallet, as `/wallet/status` reports it.
#[derive(Debug, Clone)]
pub struct WalletStatus {
    pub initialized: bool,
    pub unlocked: bool,
    pub change_address: Option<String>,
    pub height: u64,
    pub error: Option<String>,
}

/// `prefix + s` as one string.
fn concat_path(prefix: &str, s: &str) -> (r: String)
    ensures
        r@ == prefix@ + s@,
{
    let mut out: Vec<char> = Vec::new();
    push_chars(&mut out, prefix);
    push_chars(&mut out, s);
    string_of(&out)
}

/// The display text of the field named `key` of `response`; `"null"` when
/// the field is absent, as the node's own textual form has it.
fn display_field(response: &JsonValue, key: &str) -> (r: String)
    ensures
        r@ == display_text(spec_field(*response, key@)),
{
    match response.field(key) {
        Some(f) => f.display(),
        None => {
            let null_doc = JsonValue::Null;
            null_doc.display()
        },
    }
}

/// Whether a trimmed segment reads as a wallet address: it starts with the
/// mainnet or the testnet P2PK prefix.
pub open spec fn is_wallet_address(s: Seq<char>) -> bool {
    s.len() > 0 && (s[0] == '9' || s[0] == '3')
}

/// The wallet addresses a `/wallet/addresses` reply body carries: the
/// quote-separated segments of the text, trimmed, that carry an address
/// prefix.
pub open spec fn wallet_addresses_of(body: Seq<char>) -> Seq<Seq<char>> {
    split_on(body, '"').map_values(|seg: Seq<char>| trim_spec(seg)).filter(
        |t: Seq<char>| is_wallet_address(t),
    )
}

impl NodeInterface {
    /// Get all addresses from the node wallet's reply body: every
    /// quote-separated segment that, trimmed, carries an address prefix.
    /// A reply carrying none fails with `NoAddressesInWallet`.
    #[verifier::loop_isolation(false)]
    pub fn wallet_addresses(&self, response_body: &str) -> (r: Result<Vec<String>, NodeError>)
        ensures
            match r {
                Ok(addrs) => {
                    &&& addrs@.len() > 0
                    &&& addrs@.map_values(|a: String| a@) == wallet_addresses_of(response_body@)
                },
                Err(e) => e is NoAddressesInWallet && wallet_addresses_of(response_body@).len()
                    == 0,
            },
    {
        let ghost whole = response_body@;
        let ghost pred = |t: Seq<char>| is_wallet_address(t);
        let ghost trim_map = |seg: Seq<char>| trim_spec(seg);
        let cs = chars_of(response_body);
        let total = cs.len();
        let mut out: Vec<String> = Vec::new();
        let ghost mut done: Seq<Seq<char>> = Seq::empty();
        let mut pos: usize = 0;
        let mut finished = false;
        proof {
            assert(whole.skip(0) =~= whole);
            assert(split_on(whole, '"') =~= done + split_on(whole.skip(0), '"'));
            assert(done.map_values(trim_map) =~= Seq::<Seq<char>>::empty());
            assert(out@.map_values(|a: String| a@) =~= done.map_values(trim_map).filter(pred));
        }
        while !finished
            invariant
                pos <= cs@.len(),
                cs@ == whole,
                !finished ==> split_on(whole, '"') =~= done + split_on(
                    whole.skip(pos as int),
                    '"',
                ),
                finished ==> split_on(whole, '"') =~= done,
                out@.map_values(|a: String| a@) =~= done.map_values(trim_map).filter(pred),
            decreases cs@.len() - pos, (if finished { 0int } else { 1int }),
        {
            let ghost tail = whole.skip(pos as int);
            let j_opt = find_char_from(&cs, pos, '"');
            let seg_to: usize = match j_opt {
                Some(j) => j,
                None => cs.len(),
            };
            let ghost seg = whole.subrange(pos as int, seg_to as int);
            proof {
                match j_opt {
                    Some(j) => {
                        assert(first_index_of(tail, '"') == j - pos);
                        assert(tail.take(j - pos) =~= seg);
                        assert(tail.skip(j - pos + 1) =~= whole.skip(j + 1));
                        assert(split_on(tail, '"') == seq![seg] + split_on(whole.skip(j + 1), '"'));
                    },
                    None => {
                        assert(tail =~= seg);
                        assert(split_on(tail, '"') == seq![seg]);
                    },
                }
            }
            let t = trim_chars(&cs, pos, seg_to);
            let keep = t.len() > 0 && (t[0] == '9' || t[0] == '3');
            let ghost out0 = out@;
            if keep {
                out.push(string_of(&t));
            }
            proof {
                let done0g = done;
                done = done + seq![seg];
                assert(done.map_values(trim_map) =~= done0g.map_values(trim_map).push(
                    trim_spec(seg),
                ));
                seq_filter_push(done0g.map_values(trim_map), trim_spec(seg), pred);
                if keep {
                    assert(out@ =~= out0.push(out@.last()));
                    assert(out@.map_values(|a: String| a@) =~= out0.map_values(
                        |a: String| a@,
                    ).push(t@));
                } else {
                    assert(!is_wallet_address(trim_spec(seg)));
                }
                assert(out@.map_values(|a: String| a@) =~= done.map_values(trim_map).filter(pred));
            }
            match j_opt {
                Some(j) => {
                    proof {
                        assert(j < total);
                    }
                    pos = j + 1;
                    proof {
                        assert(split_on(whole, '"') =~= done + split_on(
                            whole.skip(pos as int),
                            '"',
                        ));
                    }
                },
                None => {
                    finished = true;
                    proof {
                        assert(split_on(whole, '"') =~= done);
                    }
                },
            }
        }
        if out.len() == 0 {
            proof {
                assert(wallet_addresses_of(whole).len() == 0);
            }
            return Err(NodeError::NoAddressesInWallet);
        }
        let result: Result<Vec<String>, NodeError> = Ok(out);
        proof {
            assert((result->Ok_0)@.map_values(|a: String| a@) =~= wallet_addresses_of(whole));
        }
        result
    }
}

} // verus!
