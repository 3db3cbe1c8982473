//! The serial channel's settle rule: a response is read chunk by chunk
//! until a terminator shows up in it or the line falls quiet.

use crate::text::{contains, contains_text, decode_lossy, utf8_lossy};
use vstd::prelude::*;
use vstd::utf8::{decode_utf8, valid_utf8};

verus! {

/// The largest chunk that one read may return, in bytes.
pub const READ_CHUNK_BYTES: usize = 1024;

/// How long one read may wait for data, in milliseconds.
pub const READ_TIMEOUT_MILLIS: u64 = 200;

/// A response holds one of the tokens that end it: `OK`, `ERROR` or the
/// prompt `>`.
pub open spec fn has_terminator(response: Seq<char>) -> bool {
    contains_text(response, "OK"@) || contains_text(response, "ERROR"@) || contains_text(
        response,
        ">"@,
    )
}

/// Whether a response holds one of the tokens that end it.
pub fn is_settled(response: &str) -> (settled: bool)
    ensures
        settled == has_terminator(response@),
{
    contains(response, "OK") || contains(response, "ERROR") || contains(response, ">")
}

/// What one bounded read of the channel came to.
#[derive(Debug, PartialEq, Eq)]
pub enum ReadOutcome {
    /// The bytes that arrived.
    Data(Vec<u8>),
    /// Nothing arrived: the read timed out, failed, or returned no byte.
    Quiet,
}

/// What to do after a read.
#[derive(Clone, Copy, Debug, PartialEq, Eq, Structural)]
pub enum DrainStep {
    /// Read once more.
    ReadMore,
    /// The response is complete.
    Settled,
}

/// A response as it accumulates.
#[derive(Debug)]
pub struct Drain {
    response: String,
}

impl View for Drain {
    type V = Seq<char>;

    closed spec fn view(&self) -> Seq<char> {
        self.response@
    }
}

impl Drain {
    /// An empty response.
    pub fn new() -> (drain: Drain)
        ensures
            drain@ == Seq::<char>::empty(),
    {
        Drain { response: String::new() }
    }

    /// Adds decoded text to the response. The response is complete once it
    /// holds a terminator.
    pub fn accept_text(&mut self, text: &str) -> (step: DrainStep)
        ensures
            final(self)@ == old(self)@ + text@,
            step == if has_terminator(final(self)@) {
                DrainStep::Settled
            } else {
                DrainStep::ReadMore
            },
    {
        self.response.append(text);
        if is_settled(self.response.as_str()) {
            DrainStep::Settled
        } else {
            DrainStep::ReadMore
        }
    }

    /// Takes in what a read came to. Bytes are decoded as UTF-8, ill-formed
    /// parts becoming U+FFFD, and added to the response, which is complete
    /// once it holds a terminator; bytes that are well-formed UTF-8 add the
    /// text they encode. A quiet read, or one without bytes, completes the
    /// response as it stands.
    pub fn accept(&mut self, read: &ReadOutcome) -> (step: DrainStep)
        ensures
            final(self)@ == old(self)@ + accepted_text(*read),
            read matches ReadOutcome::Data(bytes) ==> (bytes.len() > 0 && valid_utf8(bytes@)
                ==> final(self)@ == old(self)@ + decode_utf8(bytes@)),
            step == if (read matches ReadOutcome::Data(bytes) && bytes.len() > 0)
                && !has_terminator(final(self)@) {
                DrainStep::ReadMore
            } else {
                DrainStep::Settled
            },
    {
        match read {
            ReadOutcome::Data(bytes) => {
                if bytes.len() == 0 {
                    assert(self@ + accepted_text(*read) =~= self@);
                    DrainStep::Settled
                } else {
                    let text = decode_lossy(bytes.as_slice());
                    self.accept_text(text.as_str())
                }
            },
            ReadOutcome::Quiet => {
                assert(self@ + accepted_text(*read) =~= self@);
                DrainStep::Settled
            },
        }
    }

    /// The response so far.
    pub fn response(&self) -> (text: &str)
        ensures
            text@ == self@,
    {
        self.response.as_str()
    }

    /// The response, handed over.
    pub fn into_response(self) -> (text: String)
        ensures
            text@ == self@,
    {
        self.response
    }
}

/// The text that a read adds to a response.
pub open spec fn accepted_text(read: ReadOutcome) -> Seq<char> {
    match read {
        ReadOutcome::Data(bytes) => if bytes.len() > 0 {
            utf8_lossy(bytes@)
        } else {
            Seq::empty()
        },
        ReadOutcome::Quiet => Seq::empty(),
    }
}

} // verus!
