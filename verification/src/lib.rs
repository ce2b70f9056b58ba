//! A small line-oriented bidirectional messaging protocol library.
//!
//! A server accepts multiple concurrent clients, broadcasts messages to all
//! of them, and forwards their incoming lines to the hosting application; a
//! client connects, receives a directional message stream, and sends
//! messages.  Every line on the wire is terminated by a single `\n`; a line
//! introduced by `>>>` or `<<<` carries a directed message, and a bare line
//! continues the last seen direction.
//!
//! The protocol rules live in [`framing`]; the client-side handshake and
//! reader engine in [`client`]; the broadcast core with its client registry
//! in [`server`].

use vstd::prelude::*;

pub mod channel;
pub mod client;
pub mod framing;
pub mod server;

pub use client::ConnectionOptions;
pub use server::Server;

verus! {

/// The protocol version this library speaks.
pub const API_VERSION: u8 = 1;

/// Default capacity of the application-facing incoming queue.
pub const DEFAULT_INCOMING_QUEUE_SIZE: usize = 128;

/// Default capacity of each client's outgoing queue.
pub const DEFAULT_OUTGOING_QUEUE_SIZE: usize = 128;

/// Default handshake / write timeout, in milliseconds.
pub const DEFAULT_TIMEOUT_MS: u64 = 5000;

/// Direction of a framed message.
#[derive(Copy, Clone, Eq, PartialEq, Structural, Debug)]
pub enum Direction {
    /// Client-to-server message
    ClientToServer,
    /// Server-to-client message
    ServerToClient,
}

impl Direction {
    /// The three-character wire prefix of this direction.
    pub open spec fn prefix_chars(self) -> Seq<char> {
        match self {
            Direction::ClientToServer => seq!['>', '>', '>'],
            Direction::ServerToClient => seq!['<', '<', '<'],
        }
    }

    /// The three-byte wire prefix of this direction.
    pub open spec fn spec_prefix(self) -> Seq<u8> {
        match self {
            Direction::ClientToServer => seq![62u8, 62u8, 62u8],
            Direction::ServerToClient => seq![60u8, 60u8, 60u8],
        }
    }

    /// Get direction as string.
    pub fn as_str(self) -> (r: &'static str)
        ensures
            r@ == self.prefix_chars(),
    {
        proof {
            reveal_strlit(">>>");
            reveal_strlit("<<<");
            assert(">>>"@ =~= seq!['>', '>', '>']);
            assert("<<<"@ =~= seq!['<', '<', '<']);
        }
        match self {
            Direction::ClientToServer => ">>>",
            Direction::ServerToClient => "<<<",
        }
    }

    /// Get direction as bytes.
    pub fn as_bytes(self) -> (r: &'static [u8])
        ensures
            r@ == self.spec_prefix(),
    {
        let s = self.as_str();
        let r = s.as_bytes();
        proof {
            broadcast use vstd::string::is_ascii_spec_bytes;

            assert(vstd::string::is_ascii(s));
            assert(r@ =~= self.spec_prefix());
        }
        r
    }

    /// Get direction as char.
    pub fn as_char(self) -> (r: char)
        ensures
            r == self.prefix_chars()[0],
    {
        match self {
            Direction::ClientToServer => '>',
            Direction::ServerToClient => '<',
        }
    }
}

/// Declares `std::io::Error` so that [`Error::Io`] can carry the failure
/// reported by the operating system.
#[verifier::external_type_specification]
#[verifier::external_body]
pub struct ExIoError(std::io::Error);

/// Error type.
#[derive(Debug)]
pub enum Error {
    /// Data channel is already taken
    DataChannelTaken,
    /// All I/O errors
    Io(std::io::Error),
    /// Unsupported API version
    ApiVersion(u8),
    /// Invalid data
    InvalidData,
    /// Invalid TCP/IP address/host name/port
    InvalidAddress,
    /// Timed out
    Timeout,
}

} // verus!
