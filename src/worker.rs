//! The decisions of the listener workers, one event at a time.
//!
//! The runtime owns the sockets and the loops: it waits for the next event,
//! asks the step function here what to do with it, and carries the action out
//! (hand a record to the sink, serve a connection, close, stop). Every read or
//! datagram of `n` bytes is one message: the first `n` bytes of the read
//! buffer, at most all of it, decoded as UTF-8 with invalid sequences replaced.
use vstd::prelude::*;
use vstd::utf8::{decode_utf8, valid_utf8};
use crate::parser::{parse_log, parse_spec, LogView, ParsedLog};

verus! {

/// Size of the buffer that each read or receive fills.
pub const READ_BUFFER_LEN: usize = 1024;

/// The text that `String::from_utf8_lossy` makes of `b`.
pub uninterp spec fn lossy_utf8(b: Seq<u8>) -> Seq<char>;

/// Relies on `String::from_utf8_lossy`: the text depends on the bytes alone,
/// and bytes that are valid UTF-8 decode to the characters they encode.
#[verifier::external_body]
fn decode_lossy(b: &[u8]) -> (r: String)
    ensures
        r@ == lossy_utf8(b@),
        valid_utf8(b@) ==> r@ == decode_utf8(b@),
{
    String::from_utf8_lossy(b).into_owned()
}

/// The bytes of a read that reported `n` bytes into `buf`: a count past the
/// end of the buffer is cut at its end.
pub open spec fn payload(buf: Seq<u8>, n: int) -> Seq<u8> {
    if n <= buf.len() {
        buf.take(n)
    } else {
        buf
    }
}

/// The text of a read that reported `n` bytes into `buf`.
pub fn message_text(buf: &[u8], n: usize) -> (r: String)
    ensures
        r@ == lossy_utf8(payload(buf@, n as int)),
{
    let m: usize = if n <= buf.len() {
        n
    } else {
        buf.len()
    };
    let bytes = vstd::slice::slice_subrange(buf, 0, m);
    assert(bytes@ == payload(buf@, n as int));
    decode_lossy(bytes)
}

/// The record made of a read of `n` bytes on a TCP connection.
pub open spec fn stream_record(buf: Seq<u8>, n: int) -> LogView {
    parse_spec("TCP"@, "tcp connection"@, lossy_utf8(payload(buf, n)))
}

/// The record made of a datagram of `n` bytes from `source`.
pub open spec fn datagram_record(buf: Seq<u8>, n: int, source: Seq<char>) -> LogView {
    parse_spec("UDP"@, source, lossy_utf8(payload(buf, n)))
}

/// A datagram larger than the read buffer is cut to the buffer: its record is
/// the one that the full buffer makes.
pub proof fn lemma_oversized_datagram_truncated(buf: Seq<u8>, n: int, source: Seq<char>)
    requires
        n > buf.len(),
    ensures
        datagram_record(buf, n, source) == datagram_record(buf, buf.len() as int, source),
        datagram_record(buf, n, source) == parse_spec("UDP"@, source, lossy_utf8(buf)),
{
    assert(buf.take(buf.len() as int) =~= buf);
}

/// What one read on a TCP connection gave.
pub enum ReadOutcome {
    /// The read put this many bytes into the buffer; zero means the peer closed.
    Data(usize),
    /// The read failed.
    Failed,
}

/// What the handler of one TCP connection does next.
pub enum ConnectionAction {
    /// Hand this record to the sink and read again.
    Persist(ParsedLog),
    /// Stop serving the connection.
    Close,
}

/// One step of a TCP connection handler: a non-empty read becomes one record,
/// in the order read; a zero-length read (the peer closed) or a failed read
/// ends the connection.
pub fn connection_step(outcome: ReadOutcome, buf: &[u8]) -> (r: ConnectionAction)
    ensures
        match outcome {
            ReadOutcome::Data(n) => if n > 0 {
                r matches ConnectionAction::Persist(rec) && rec@ == stream_record(buf@, n as int)
            } else {
                r is Close
            },
            ReadOutcome::Failed => r is Close,
        },
{
    match outcome {
        ReadOutcome::Data(n) => {
            if n > 0 {
                let text = message_text(buf, n);
                ConnectionAction::Persist(parse_log("TCP", "tcp connection", text.as_str()))
            } else {
                ConnectionAction::Close
            }
        },
        ReadOutcome::Failed => ConnectionAction::Close,
    }
}

/// What the TCP accept loop saw.
pub enum AcceptEvent {
    /// The shutdown signal fired.
    Shutdown,
    /// A connection was accepted.
    Accepted,
    /// Accepting failed.
    Failed,
}

/// What the TCP accept loop does next.
pub enum AcceptAction {
    /// Leave the loop; the worker ends well.
    Stop,
    /// Serve the new connection on a task of its own, then accept again.
    Serve,
    /// Log the failure and accept again.
    Continue,
}

/// One step of the TCP accept loop: the shutdown signal ends it, a connection
/// is served on its own task, and a failed accept is a transient error that
/// does not end the listener.
pub fn accept_step(event: AcceptEvent) -> (r: AcceptAction)
    ensures
        event is Shutdown <==> r is Stop,
        event is Accepted <==> r is Serve,
        event is Failed <==> r is Continue,
{
    match event {
        AcceptEvent::Shutdown => AcceptAction::Stop,
        AcceptEvent::Accepted => AcceptAction::Serve,
        AcceptEvent::Failed => AcceptAction::Continue,
    }
}

/// What the UDP receive loop saw.
pub enum DatagramEvent {
    /// The shutdown signal fired.
    Shutdown,
    /// A datagram was received: the byte count the socket reported and the
    /// sender's address as text.
    Received(usize, String),
    /// Receiving failed.
    Failed,
}

/// What the UDP receive loop does next.
pub enum DatagramAction {
    /// Leave the loop; the worker ends well.
    Stop,
    /// Hand this record to the sink and receive again.
    Persist(ParsedLog),
    /// Log the failure and receive again.
    Continue,
}

/// One step of the UDP receive loop: the shutdown signal ends it, each
/// datagram becomes one record whose source is the sender's address, cut to
/// the buffer when it was larger, and a failed receive does not end the
/// listener.
pub fn datagram_step(event: DatagramEvent, buf: &[u8]) -> (r: DatagramAction)
    ensures
        match event {
            DatagramEvent::Shutdown => r is Stop,
            DatagramEvent::Received(n, source) => r matches DatagramAction::Persist(rec)
                && rec@ == datagram_record(buf@, n as int, source@),
            DatagramEvent::Failed => r is Continue,
        },
{
    match event {
        DatagramEvent::Shutdown => DatagramAction::Stop,
        DatagramEvent::Received(n, source) => {
            let text = message_text(buf, n);
            DatagramAction::Persist(parse_log("UDP", source.as_str(), text.as_str()))
        },
        DatagramEvent::Failed => DatagramAction::Continue,
    }
}

} // verus!
