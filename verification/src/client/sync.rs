//! The earlier text protocol of the client: a fixed exchange of requests,
//! each of which the server must answer with a fixed text.

use vstd::prelude::*;
use vstd::string::StringExecFns;
use vstd::utf8::decode_utf8;
use vstd::utf8::encode_utf8;
use vstd::utf8::valid_utf8;

verus! {

broadcast use vstd::string::group_string_axioms;

/// The error of `String::from_utf8`.
#[verifier::external_type_specification]
#[verifier::external_body]
pub struct ExFromUtf8Error(std::string::FromUtf8Error);

/// Calls `String::from_utf8`. Claims what its documentation says: it accepts
/// exactly the bytes that are valid UTF-8, and gives the text they encode.
#[verifier::external_body]
fn string_from_utf8(bytes: Vec<u8>) -> (res: Result<String, std::string::FromUtf8Error>)
    ensures
        res is Ok <==> valid_utf8(bytes@),
        res matches Ok(s) ==> s@ == decode_utf8(bytes@),
{
    String::from_utf8(bytes)
}

/// The steps of the exchange, in order.
#[derive(Debug, PartialEq, Eq, Structural)]
pub enum HandshakeStep {
    /// `SYN`, answered with `ACK`.
    Connection,
    /// `filepath`, answered with `ready for filepath`.
    FilepathPrompt,
    /// The path itself, answered with `received ` and the path.
    Filepath,
    /// `signature`, answered with `calculating signature`.
    Signature,
    /// `shutdown`, answered with `Shutting down!`.
    Shutdown,
    /// The exchange is over.
    Done,
}

/// The text the client sends at `step`.
pub open spec fn request_text(step: HandshakeStep, filepath: Seq<char>) -> Seq<char> {
    match step {
        HandshakeStep::Connection => "SYN"@,
        HandshakeStep::FilepathPrompt => "filepath"@,
        HandshakeStep::Filepath => filepath,
        HandshakeStep::Signature => "signature"@,
        HandshakeStep::Shutdown => "shutdown"@,
        HandshakeStep::Done => Seq::empty(),
    }
}

/// The text the server must answer at `step`.
pub open spec fn reply_text(step: HandshakeStep, filepath: Seq<char>) -> Seq<char> {
    match step {
        HandshakeStep::Connection => "ACK"@,
        HandshakeStep::FilepathPrompt => "ready for filepath"@,
        HandshakeStep::Filepath => "received "@ + filepath,
        HandshakeStep::Signature => "calculating signature"@,
        HandshakeStep::Shutdown => "Shutting down!"@,
        HandshakeStep::Done => Seq::empty(),
    }
}

/// The step after `step`.
pub open spec fn next_step(step: HandshakeStep) -> HandshakeStep {
    match step {
        HandshakeStep::Connection => HandshakeStep::FilepathPrompt,
        HandshakeStep::FilepathPrompt => HandshakeStep::Filepath,
        HandshakeStep::Filepath => HandshakeStep::Signature,
        HandshakeStep::Signature => HandshakeStep::Shutdown,
        HandshakeStep::Shutdown => HandshakeStep::Done,
        HandshakeStep::Done => HandshakeStep::Done,
    }
}

/// One run of the exchange for a file.
pub struct Handshake {
    pub filepath: String,
    pub step: HandshakeStep,
}

/// The exchange for `filepath`, before its first request.
pub fn sync(filepath: String) -> (h: Handshake)
    ensures
        h.filepath@ == filepath@,
        h.step == HandshakeStep::Connection,
{
    Handshake { filepath, step: HandshakeStep::Connection }
}

impl Handshake {
    /// The request of the current step, as bytes.
    pub fn request(&self) -> (r: Vec<u8>)
        requires
            self.step != HandshakeStep::Done,
        ensures
            r@ == encode_utf8(request_text(self.step, self.filepath@)),
    {
        let text: &str = match self.step {
            HandshakeStep::Connection => "SYN",
            HandshakeStep::FilepathPrompt => "filepath",
            HandshakeStep::Filepath => self.filepath.as_str(),
            HandshakeStep::Signature => "signature",
            HandshakeStep::Shutdown => "shutdown",
            HandshakeStep::Done => "",
        };
        vstd::slice::slice_to_vec(text.as_bytes())
    }

    /// The answer the current step expects.
    pub fn expected_reply(&self) -> (s: String)
        ensures
            s@ == reply_text(self.step, self.filepath@),
    {
        match self.step {
            HandshakeStep::Connection => "ACK".to_string(),
            HandshakeStep::FilepathPrompt => "ready for filepath".to_string(),
            HandshakeStep::Filepath => {
                let mut s = "received ".to_string();
                s.append(self.filepath.as_str());
                s
            },
            HandshakeStep::Signature => "calculating signature".to_string(),
            HandshakeStep::Shutdown => "Shutting down!".to_string(),
            HandshakeStep::Done => String::new(),
        }
    }

    /// Whether `reply` is an answer the current step accepts: bytes that are
    /// not UTF-8 (which `check_reply` turns into an error), or exactly the
    /// expected text.
    pub fn accepts(&self, reply: &[u8]) -> (b: bool)
        ensures
            b == (valid_utf8(reply@) ==> decode_utf8(reply@) == reply_text(
                self.step,
                self.filepath@,
            )),
    {
        match string_from_utf8(vstd::slice::slice_to_vec(reply)) {
            Ok(text) => {
                let expected = self.expected_reply();
                text == expected
            },
            Err(_) => true,
        }
    }

    /// Takes the server's answer to the current request: an error where it
    /// is not UTF-8; otherwise the exchange moves to its next step. An answer
    /// in UTF-8 other than the expected text is not accepted (see `accepts`).
    pub fn check_reply(&mut self, reply: Vec<u8>) -> (res: Result<(), std::string::FromUtf8Error>)
        requires
            old(self).step != HandshakeStep::Done,
            valid_utf8(reply@) ==> decode_utf8(reply@) == reply_text(
                old(self).step,
                old(self).filepath@,
            ),
        ensures
            res is Err <==> !valid_utf8(reply@),
            final(self).filepath == old(self).filepath,
            final(self).step == if res is Ok {
                next_step(old(self).step)
            } else {
                old(self).step
            },
    {
        let _text = string_from_utf8(reply)?;
        self.step = match self.step {
            HandshakeStep::Connection => HandshakeStep::FilepathPrompt,
            HandshakeStep::FilepathPrompt => HandshakeStep::Filepath,
            HandshakeStep::Filepath => HandshakeStep::Signature,
            HandshakeStep::Signature => HandshakeStep::Shutdown,
            HandshakeStep::Shutdown => HandshakeStep::Done,
            HandshakeStep::Done => HandshakeStep::Done,
        };
        Ok(())
    }
}

/// What the channel test server answers to a request, and whether it stops
/// after answering: it stops on `shutdown`, greets `hello`, and says it did
/// not understand anything else.
pub fn local_server_response(request: &str) -> (r: (String, bool))
    ensures
        r.1 == (request@ == "shutdown"@),
        r.0@ == if request@ == "shutdown"@ {
            "Shutting down!"@
        } else if request@ == "hello"@ {
            "Hey, hows it going?"@
        } else {
            "Dang, I quite didn't catch that."@
        },
{
    let request = request.to_string();
    let shutdown = "shutdown".to_string();
    let hello = "hello".to_string();
    if request == shutdown {
        ("Shutting down!".to_string(), true)
    } else if request == hello {
        ("Hey, hows it going?".to_string(), false)
    } else {
        ("Dang, I quite didn't catch that.".to_string(), false)
    }
}

/// Whether the server answered the connection check with `ACK`.
pub fn is_ack(reply: &String) -> (b: bool)
    ensures
        b == (reply@ == "ACK"@),
{
    let ack = "ACK".to_string();
    *reply == ack
}

/// Takes the outcome of the connection check: an error in sending it is
/// handed on; an answer other than `ACK` is not accepted (see `is_ack`).
pub fn check_comms<E>(reply: Result<String, E>) -> (r: Result<(), E>)
    requires
        reply matches Ok(s) ==> s@ == "ACK"@,
    ensures
        r is Ok <==> reply is Ok,
        reply matches Err(e) ==> r == Err::<(), E>(e),
{
    match reply {
        Ok(_) => Ok(()),
        Err(e) => Err(e),
    }
}

} // verus!
