//! The responder's command-line surface, as plain data; the binary
//! parses its arguments into this.
use vstd::prelude::*;

verus! {

/// What the responder can be asked on its command line.
pub struct Args {
    /// Listen address overriding the default of port 15 on all
    /// interfaces.
    pub listen_addr: Option<String>,
}

} // verus!
