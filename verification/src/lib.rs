//! A verified decoder for single lines of the IRC wire protocol
//! (RFC 1459/2812, extended with IRCv3 message tags).
//!
//! The crate is a stateless, single-message decoder: it takes one line of
//! text, already separated from the transport stream and stripped of its
//! CR/LF terminator, and produces a structured [`IrcMessage`] describing the
//! line's tags, sender prefix, command verb and parameters, or fails with a
//! descriptive [`DecodeError`]. Transport concerns (framing, sockets,
//! dispatch) are out of scope.

pub mod laws;
pub mod message;
pub mod tag;
pub mod text;

pub use message::DecodeError;
pub use message::IrcMessage;
pub use message::MessageModel;
pub use tag::MessageTag;
pub use tag::TagModel;
