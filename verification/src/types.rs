//! The scan identifier assigned by the node.
use crate::node_interface::NodeError;
use crate::text::{is_u64_text, parse_u64, u64_text_val};
use vstd::prelude::*;

verus! {

/// Integer which is provided by the Ergo node to reference a given scan.
#[derive(Debug, Copy, Clone, PartialEq, Eq, Structural)]
pub struct ScanId(pub u64);

impl ScanId {
    /// Parse a scan id from the node's textual form.  A string that does not
    /// denote an unsigned 64-bit integer is rejected with `InvalidScanId`.
    pub fn parse(s: &str) -> (r: Result<ScanId, NodeError>)
        ensures
            match r {
                Ok(id) => is_u64_text(s@) && id.0 as nat == u64_text_val(s@),
                Err(e) => !is_u64_text(s@) && (e matches NodeError::InvalidScanId(m) && m@
                    == s@),
            },
    {
        match parse_u64(s) {
            Some(n) => Ok(ScanId(n)),
            None => Err(NodeError::InvalidScanId(s.to_owned())),
        }
    }
}

impl From<u64> for ScanId {
    fn from(n: u64) -> (r: ScanId)
        ensures
            r == ScanId(n),
    {
        ScanId(n)
    }
}

impl vstd::std_specs::convert::FromSpecImpl<u64> for ScanId {
    open spec fn obeys_from_spec() -> bool {
        true
    }

    open spec fn from_spec(n: u64) -> ScanId {
        ScanId(n)
    }
}

impl From<ScanId> for u64 {
    fn from(id: ScanId) -> (r: u64)
        ensures
            r == id.0,
    {
        id.0
    }
}

impl vstd::std_specs::convert::FromSpecImpl<ScanId> for u64 {
    open spec fn obeys_from_spec() -> bool {
        true
    }

    open spec fn from_spec(id: ScanId) -> u64 {
        id.0
    }
}

} // verus!
