//! Definite-length block replies: a fixed header, the payload, one terminator
//! byte.

use crate::error::ScopeError;
use vstd::prelude::*;

verus! {

/// Bytes of block header that stand in front of the payload.
pub const HEADER_LEN: usize = 10;

/// Bytes of terminator that stand behind the payload.
pub const TERMINATOR_LEN: usize = 1;

/// The shortest reply that holds a header and a terminator.
pub const FRAMING_LEN: usize = 11;

/// A reply is framed when it is long enough to hold header and terminator.
pub open spec fn is_framed(response: Seq<u8>) -> bool {
    response.len() >= FRAMING_LEN
}

/// The bytes of a framed reply between its header and its terminator.
pub open spec fn block_payload(response: Seq<u8>) -> Seq<u8>
    recommends
        is_framed(response),
{
    response.subrange(HEADER_LEN as int, response.len() - TERMINATOR_LEN)
}

/// Strips header and terminator from a block reply.
///
/// The payload is borrowed from `response`, byte for byte and in order. A
/// reply too short to be framed is refused with its length; it is never read
/// as an empty payload.
pub fn decode_block(response: &[u8]) -> (r: Result<&[u8], ScopeError>)
    ensures
        match r {
            Ok(payload) => {
                &&& is_framed(response@)
                &&& payload@ == block_payload(response@)
                &&& payload@.len() == response@.len() - FRAMING_LEN
            },
            Err(e) => {
                &&& !is_framed(response@)
                &&& e == (ScopeError::PayloadTooShort { len: response.len() })
            },
        },
{
    let len: usize = response.len();
    if len < FRAMING_LEN {
        return Err(ScopeError::PayloadTooShort { len });
    }
    Ok(&response[HEADER_LEN..len - TERMINATOR_LEN])
}

/// The payload of a framed reply is the reply without its first ten bytes and
/// its last one: byte `i` of the payload is byte `i + 10` of the reply.
pub proof fn lemma_payload_bytes(response: Seq<u8>)
    requires
        is_framed(response),
    ensures
        block_payload(response).len() == response.len() - 11,
        forall|i: int|
            0 <= i < response.len() - 11 ==> #[trigger] block_payload(response)[i] == response[
                i + 10],
        response =~= response.subrange(0, 10) + block_payload(response) + seq![response.last()],
{
}

} // verus!
