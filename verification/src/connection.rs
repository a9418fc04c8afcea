//! What client and server agree on before the first packet is sent.

use vstd::prelude::*;

verus! {

/// How many clients the server admits at once.
pub const MAX_CLIENTS: usize = 30;

/// The identifier a client takes from its clock: the milliseconds since the
/// epoch, cut down to 64 bits. Two clients that start within the same
/// millisecond take the same identifier.
pub fn client_id_from_millis(millis: u128) -> (client_id: u64)
    ensures
        client_id == millis % 0x1_0000_0000_0000_0000,
{
    let low: u128 = millis & 0xffff_ffff_ffff_ffff;
    assert(low == millis % 0x1_0000_0000_0000_0000) by (bit_vector)
        requires
            low == millis & 0xffff_ffff_ffff_ffff,
    ;
    low as u64
}

} // verus!
