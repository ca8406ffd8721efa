//! The kinds of request a client can send.

use vstd::prelude::*;

use super::PatchRequest;
use super::ShutdownRequest;
use super::SignatureRequest;

verus! {

/// One client request.
#[derive(Debug)]
pub enum Message {
    SignatureRequest(SignatureRequest),
    PatchRequest(PatchRequest),
    ShutdownRequest(ShutdownRequest),
}

} // verus!
