//! Error messages.

use vstd::prelude::*;

verus! {

/// Error message.
#[derive(Debug)]
pub struct ErrorMsg {
    pub msg: String,
}

} // verus!
