//! The messages that client and server exchange.

use vstd::prelude::*;

pub mod client_message;

verus! {

/// What a client sends: one request, or none where the sender's message
/// could not be told apart.
#[derive(Debug)]
pub struct ClientMessage {
    pub message: Option<client_message::Message>,
}

/// Asks the server for the signatures of its copies of these files.
#[derive(Debug)]
pub struct SignatureRequest {
    pub filepaths: Vec<String>,
}

/// The server's signatures, one per requested file.
#[derive(Debug)]
pub struct SignatureResponse {
    pub signatures: Vec<FileSignature>,
}

/// The serialized rsync signature of one file.
#[derive(Debug)]
pub struct FileSignature {
    pub filepath: String,
    pub content: Vec<u8>,
}

/// Asks the server to patch its files with these deltas.
#[derive(Debug)]
pub struct PatchRequest {
    pub deltas: Vec<Delta>,
}

/// An rsync delta for one file.
#[derive(Debug)]
pub struct Delta {
    pub filepath: String,
    pub content: Vec<u8>,
}

/// The server's answer to a patch request.
#[derive(Debug)]
pub struct PatchResponse {
    pub ok: bool,
}

/// Asks the server to stop.
#[derive(Debug)]
pub struct ShutdownRequest {}

/// The server's last answer, with the reason where it stopped on its own.
#[derive(Debug)]
pub struct ShutdownResponse {
    pub error: Option<String>,
}

} // verus!
