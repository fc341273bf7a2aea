//! Query/response protocol of a SCPI bench oscilloscope: the directives it is
//! sent, the collecting of its replies, the framing of its binary blocks,
//! the text of its preamble, and the waveform as a table.
//!
//! The crate holds no I/O and no floating point. A caller owns the session
//! to the instrument: it sends the directives of [`command`], feeds what
//! each read brought to a [`transport::Exchange`], and hands the collected
//! reply to [`text`] and [`preamble`], or to [`block`]. It scales the
//! samples itself, through [`waveform`], and has them written by [`table`].

pub mod block;
pub mod command;
pub mod error;
pub mod preamble;
pub mod table;
pub mod text;
pub mod transport;
pub mod waveform;
