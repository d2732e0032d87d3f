use vstd::prelude::*;

verus! {

/// Payload bytes that one flit carries.
pub const DATA_BYTE_PER_FLIT: u32 = 64;

/// Cycles a sender waits for an acknowledgement before its first resend.
pub const WAIT_ACK_CYCLES: u32 = 2;

/// Resends after which the pending flit is abandoned.
pub const MAX_RESEND_TIMES: u8 = 3;

/// Name that addresses every neighbour.
pub open spec fn broadcast_pid() -> Seq<char> {
    "broadcast"@
}

/// Routing id that addresses every neighbour.
pub const BROADCAST_ID: u32 = 0xffff_ffff;

} // verus!
