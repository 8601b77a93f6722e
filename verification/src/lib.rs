//! Prompt gateway: a verified core for a small HTTP service that forwards a
//! user prompt to a local inference backend and returns the generated text.
//!
//! The library holds everything that can be stated and proved: the JSON
//! request/response codec, the system-prompt template, and the decisions the
//! gateway takes around the one backend call. The surrounding process (the
//! HTTP server and the asynchronous backend client) performs the I/O and
//! drives these functions.

pub mod gateway;
pub mod json;

use vstd::prelude::*;

verus! {

/// Whitespace as JSON defines it: space, tab, line feed, carriage return.
pub open spec fn is_json_ws(b: u8) -> bool {
    b == 0x20 || b == 0x09 || b == 0x0a || b == 0x0d
}

} // verus!
