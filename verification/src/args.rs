//! The client's command-line surface, as plain data; the binary parses
//! its arguments into this.
use vstd::prelude::*;

verus! {

/// What the client can be asked on its command line.
pub struct Args {
    /// Generate a configuration file when none is available.
    pub generate_config: bool,
}

} // verus!
