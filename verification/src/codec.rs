//! Binary encoding of vesting schedules, as they are persisted.
//!
//! A schedule is written as the bincode encoding of its fields in declaration
//! order (denomination, total, start, cliff, end); bincode lays a struct out
//! exactly as the tuple of its fields, so these bytes are those of the schedule
//! record itself.

use crate::schedule::{ScheduleView, VestingSchedule};
use vstd::prelude::*;
use vstd::utf8::encode_utf8;

verus! {

/// The `width` low-order bytes of `n`, least significant first.
pub open spec fn le_bytes(n: nat, width: nat) -> Seq<u8>
    decreases width,
{
    if width == 0 {
        seq![]
    } else {
        seq![(n % 256) as u8] + le_bytes(n / 256, (width - 1) as nat)
    }
}

/// The bytes that `bincode::serialize` (fixed-width little-endian integers,
/// strings as a `u64` byte length followed by their UTF-8 bytes) produces for
/// a schedule with these fields.
pub open spec fn bincode_schedule_bytes(fields: ScheduleView) -> Seq<u8> {
    let denom = encode_utf8(fields.0);
    le_bytes(denom.len(), 8) + denom + le_bytes(fields.1 as nat, 16) + le_bytes(fields.2 as nat, 8)
        + le_bytes(fields.3 as nat, 8) + le_bytes(fields.4 as nat, 8)
}

/// What `bincode::deserialize` reads from `bytes` as schedule fields: `None`
/// where the bytes are not such an encoding.
pub uninterp spec fn bincode_schedule_fields(bytes: Seq<u8>) -> Option<ScheduleView>;

/// Calls `bincode::serialize` on the schedule's fields. The contract claims
/// that serialization succeeds (bincode's default configuration has no size
/// limit and strings and integers cannot fail to encode), that the bytes are
/// the layout above, and that `bincode::deserialize` reads the same fields
/// back from them.
#[verifier::external_body]
pub(crate) fn encode_schedule(s: &VestingSchedule) -> (r: Option<Vec<u8>>)
    ensures
        r is Some,
        r.unwrap()@ == bincode_schedule_bytes(s@),
        bincode_schedule_fields(r.unwrap()@) == Some(s@),
{
    bincode::serialize(&(s.denom.as_str(), s.total_locked, s.start_height, s.cliff_height, s.end_height)).ok()
}

/// Calls `bincode::deserialize` for the schedule's fields and assembles them
/// into a schedule. The contract claims that the result is the named decoding
/// of the bytes.
#[verifier::external_body]
pub(crate) fn decode_schedule(bytes: &[u8]) -> (r: Option<VestingSchedule>)
    ensures
        r is Some == bincode_schedule_fields(bytes@) is Some,
        r is Some ==> r.unwrap()@ == bincode_schedule_fields(bytes@).unwrap(),
{
    match bincode::deserialize::<(String, u128, u64, u64, u64)>(bytes) {
        Ok((denom, total_locked, start_height, cliff_height, end_height)) => Some(
            VestingSchedule { denom, total_locked, start_height, cliff_height, end_height },
        ),
        Err(_) => None,
    }
}

} // verus!
