//! The client-side protocol engine: connection options, the cumulative
//! handshake deadline, the handshake state machine, and the reader step
//! that turns received lines into directional events.
//!
//! The engine is purely a decision procedure: the surrounding program owns
//! the socket, reads lines, measures elapsed time, and feeds both in here.

use vstd::prelude::*;

use crate::framing::{classified, greeting_version, headers_end_bytes};
use crate::{Direction, Error, API_VERSION, DEFAULT_INCOMING_QUEUE_SIZE, DEFAULT_TIMEOUT_MS};

verus! {

/// Connection options.
pub struct ConnectionOptions {
    /// Handshake timeout in milliseconds, applied to each blocking step and
    /// cumulatively from the start of the connection attempt.
    pub timeout_ms: u64,
    /// Capacity of the channel delivering directional events to the caller.
    pub incoming_queue_size: usize,
}

impl Default for ConnectionOptions {
    /// The default options: a five-second timeout and an incoming queue of
    /// 128 events.
    fn default() -> (r: Self)
        ensures
            r.timeout_ms == DEFAULT_TIMEOUT_MS,
            r.incoming_queue_size == DEFAULT_INCOMING_QUEUE_SIZE,
    {
        ConnectionOptions {
            timeout_ms: DEFAULT_TIMEOUT_MS,
            incoming_queue_size: DEFAULT_INCOMING_QUEUE_SIZE,
        }
    }
}

impl ConnectionOptions {
    /// Create a new connection options instance.
    pub fn new() -> (r: Self)
        ensures
            r.timeout_ms == DEFAULT_TIMEOUT_MS,
            r.incoming_queue_size == DEFAULT_INCOMING_QUEUE_SIZE,
    {
        Self::default()
    }

    /// Set the connection timeout in milliseconds (default: 5000).
    pub fn timeout(self, timeout_ms: u64) -> (r: Self)
        ensures
            r.timeout_ms == timeout_ms,
            r.incoming_queue_size == self.incoming_queue_size,
    {
        ConnectionOptions { timeout_ms, ..self }
    }

    /// Set the incoming queue size (default: 128).
    pub fn incoming_queue_size(self, size: usize) -> (r: Self)
        ensures
            r.incoming_queue_size == size,
            r.timeout_ms == self.timeout_ms,
    {
        ConnectionOptions { incoming_queue_size: size, ..self }
    }
}

/// The cumulative deadline of one connection attempt.  Every blocking
/// handshake step is given only the time that remains of the total.
pub struct Deadline {
    /// The total time budget in milliseconds.
    pub timeout_ms: u64,
}

impl Deadline {
    /// Start a deadline with the given total budget.
    pub fn new(timeout_ms: u64) -> (r: Self)
        ensures
            r.timeout_ms == timeout_ms,
    {
        Deadline { timeout_ms }
    }

    /// The time that remains after `elapsed_ms` have passed, or `Timeout`
    /// once the budget is exhausted.
    pub fn remaining_ms(&self, elapsed_ms: u64) -> (r: Result<u64, Error>)
        ensures
            elapsed_ms <= self.timeout_ms ==> r == Ok::<u64, Error>(
                (self.timeout_ms - elapsed_ms) as u64,
            ),
            elapsed_ms > self.timeout_ms ==> r == Err::<u64, Error>(Error::Timeout),
    {
        if elapsed_ms > self.timeout_ms {
            Err(Error::Timeout)
        } else {
            Ok(self.timeout_ms - elapsed_ms)
        }
    }
}

/// The byte suffix `:4001` appended to a bare host: the separator and the
/// well-known default port.
pub open spec fn default_port_suffix() -> Seq<u8> {
    seq![58u8, 52u8, 48u8, 48u8, 49u8]
}

/// True if the address already names a port (it holds a `:` separator).
pub open spec fn has_port_separator(addr: Seq<u8>) -> bool {
    exists|i: int| 0 <= i < addr.len() && addr[i] == 58
}

/// The client-side address rule: a bare host without `:port` is completed
/// by appending `:4001`, the well-known default port, before resolution; an
/// address that already names a port is kept as it is.
pub fn with_default_port(addr: &Vec<u8>) -> (r: Vec<u8>)
    ensures
        has_port_separator(addr@) ==> r@ == addr@,
        !has_port_separator(addr@) ==> r@ == addr@ + default_port_suffix(),
{
    let mut found = false;
    let mut r: Vec<u8> = Vec::new();
    let mut i: usize = 0;
    while i < addr.len()
        invariant
            0 <= i <= addr@.len(),
            r@ == addr@.subrange(0, i as int),
            found == exists|k: int| 0 <= k < i && addr@[k] == 58,
        decreases addr@.len() - i,
    {
        if addr[i] == 58 {
            found = true;
        }
        r.push(addr[i]);
        proof {
            assert(r@ =~= addr@.subrange(0, i + 1));
        }
        i += 1;
    }
    proof {
        assert(r@ =~= addr@);
    }
    if !found {
        r.push(58);
        r.push(52);
        r.push(48);
        r.push(48);
        r.push(49);
        proof {
            assert(r@ =~= addr@ + default_port_suffix());
        }
    }
    r
}

/// Where a connection attempt stands while the handshake lines arrive.
#[derive(Copy, Clone, Eq, PartialEq, Structural, Debug)]
pub enum HandshakeState {
    /// The greeting line `RFLOW/1` has not arrived yet.
    AwaitGreeting,
    /// The greeting was accepted; header lines are read and ignored until
    /// the end-of-headers line `---`.
    AwaitHeaders,
    /// The handshake is complete and the stream carries framed messages.
    Complete,
}

/// What one handshake line does to the state: the greeting line must carry
/// the greeting token and the supported version, every later line is
/// ignored until `---` completes the handshake.
pub open spec fn handshake_next(state: HandshakeState, line: Seq<u8>) -> Result<
    HandshakeState,
    Error,
> {
    match state {
        HandshakeState::AwaitGreeting => match greeting_version(line) {
            Option::None => Err(Error::InvalidData),
            Option::Some(v) => if v == API_VERSION {
                Ok(HandshakeState::AwaitHeaders)
            } else {
                Err(Error::ApiVersion(v))
            },
        },
        HandshakeState::AwaitHeaders => if line == headers_end_bytes() {
            Ok(HandshakeState::Complete)
        } else {
            Ok(HandshakeState::AwaitHeaders)
        },
        HandshakeState::Complete => Ok(HandshakeState::Complete),
    }
}

/// Advance the handshake by one received line (without its terminating
/// newline).  An error aborts the connection attempt; end of input before
/// [`HandshakeState::Complete`] is invalid data, as the caller reports.
pub fn handshake_step(state: HandshakeState, line: &Vec<u8>) -> (r: Result<HandshakeState, Error>)
    ensures
        r == handshake_next(state, line@),
{
    match state {
        HandshakeState::AwaitGreeting => {
            match crate::framing::parse_greeting(line) {
                Ok(v) => {
                    if v == API_VERSION {
                        Ok(HandshakeState::AwaitHeaders)
                    } else {
                        Err(Error::ApiVersion(v))
                    }
                },
                Err(_) => Err(Error::InvalidData),
            }
        },
        HandshakeState::AwaitHeaders => {
            if line.len() == 3 && line[0] == 45 && line[1] == 45 && line[2] == 45 {
                proof {
                    assert(line@ =~= headers_end_bytes());
                }
                Ok(HandshakeState::Complete)
            } else {
                proof {
                    if line@.len() == 3 {
                        assert(line@[0] == headers_end_bytes()[0] && line@[1]
                            == headers_end_bytes()[1] && line@[2] == headers_end_bytes()[2]
                            ==> line@ =~= headers_end_bytes());
                    }
                }
                Ok(HandshakeState::AwaitHeaders)
            }
        },
        HandshakeState::Complete => Ok(HandshakeState::Complete),
    }
}

/// Interoperation: the two lines of the byte sequence a server emits on a
/// new connection — the greeting line and the end-of-headers line — drive
/// the client handshake machine to completion.
pub proof fn lemma_handshake_interoperates()
    ensures
        handshake_next(HandshakeState::AwaitGreeting, crate::framing::handshake_bytes().subrange(0, 7))
            == Ok::<HandshakeState, Error>(HandshakeState::AwaitHeaders),
        handshake_next(HandshakeState::AwaitHeaders, crate::framing::handshake_bytes().subrange(8, 11))
            == Ok::<HandshakeState, Error>(HandshakeState::Complete),
{
    reveal_with_fuel(crate::framing::field_end, 10);
    reveal_with_fuel(crate::framing::trim_front, 3);
    reveal_with_fuel(crate::framing::trim_back, 3);
    reveal_with_fuel(crate::framing::dec_value, 3);
    let greeting_line = crate::framing::handshake_bytes().subrange(0, 7);
    assert(greeting_line =~= seq![82u8, 70u8, 76u8, 79u8, 87u8, 47u8, 49u8]);
    assert(crate::framing::field_end(greeting_line, 0) == 5);
    assert(greeting_line.subrange(0, 5) =~= crate::framing::greeting_bytes());
    assert(crate::framing::field_end(greeting_line, 6) == 7);
    let version_field = greeting_line.subrange(6, 7);
    assert(version_field =~= seq![49u8]);
    assert(crate::framing::trimmed(version_field) =~= seq![49u8]);
    assert(crate::framing::dec_value(seq![49u8]) == 1);
    assert(crate::framing::parse_u8(seq![49u8]) == Some(1u8));
    assert(crate::framing::greeting_version(greeting_line) == Some(API_VERSION));
    assert(crate::framing::handshake_bytes().subrange(8, 11) =~= headers_end_bytes());
}

/// Version gate: a greeting that parses but advertises any version other
/// than the supported one is answered with exactly `ApiVersion(v)`, and the
/// handshake never proceeds past the greeting line.
pub proof fn lemma_version_gate(line: Seq<u8>, v: u8)
    requires
        greeting_version(line) == Some(v),
        v != API_VERSION,
    ensures
        handshake_next(HandshakeState::AwaitGreeting, line) == Err::<HandshakeState, Error>(
            Error::ApiVersion(v),
        ),
{
}

/// What the reader delivers for one received line: a prefixed line carries
/// its own direction and the payload after the prefix; a bare line carries
/// the last seen direction and the whole line; a bare line before any
/// prefixed line is a protocol violation and delivers nothing.
pub open spec fn reader_next(last: Option<Direction>, line: Seq<u8>) -> Option<
    (Direction, Seq<u8>),
> {
    match classified(line) {
        Option::Some(dp) => Some(dp),
        Option::None => match last {
            Option::Some(d) => Some((d, line)),
            Option::None => None,
        },
    }
}

/// The decision the reader takes for one received line.
pub enum ReaderStep {
    /// Deliver this directional event; the direction becomes the last seen
    /// one.
    Deliver(Direction, Vec<u8>),
    /// Protocol violation: shut the connection down.
    Terminate,
}

/// Classify one received line (without its terminating newline) against the
/// last seen direction.
pub fn reader_step(last: Option<Direction>, line: &Vec<u8>) -> (r: ReaderStep)
    ensures
        match r {
            ReaderStep::Deliver(d, p) => reader_next(last, line@) == Some((d, p@)),
            ReaderStep::Terminate => reader_next(last, line@) is None,
        },
{
    match crate::framing::classify_line(line) {
        crate::framing::LineClass::Directed(d, p) => ReaderStep::Deliver(d, p),
        crate::framing::LineClass::Bare => match last {
            Option::Some(d) => {
                let mut p: Vec<u8> = Vec::new();
                let mut i: usize = 0;
                while i < line.len()
                    invariant
                        i <= line@.len(),
                        p@ == line@.subrange(0, i as int),
                    decreases line@.len() - i,
                {
                    p.push(line[i]);
                    proof {
                        assert(p@ =~= line@.subrange(0, i + 1));
                    }
                    i += 1;
                }
                proof {
                    assert(p@ =~= line@);
                }
                ReaderStep::Deliver(d, p)
            },
            Option::None => ReaderStep::Terminate,
        },
    }
}

/// Continuation: after any prefixed line, a bare line is delivered with the
/// inherited direction and the whole line as payload; before any prefixed
/// line, a bare line delivers nothing and ends the connection.
pub proof fn lemma_continuation(d: Direction, line: Seq<u8>)
    requires
        classified(line) is None,
    ensures
        reader_next(Some(d), line) == Some((d, line)),
        reader_next(None::<Direction>, line) is None,
{
}

} // verus!
