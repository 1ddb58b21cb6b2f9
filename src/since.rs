use vstd::prelude::*;
use ckb_std::since::{LockValue, Since};

verus! {

/// The lock-type flag of a since value: set for a relative lock.
pub const SINCE_LOCK_TYPE_FLAG: u64 = 0x8000_0000_0000_0000;

/// The metric bits of a since value.
pub const SINCE_METRIC_MASK: u64 = 0x6000_0000_0000_0000;

/// The metric bits of a lock by timestamp.
pub const SINCE_METRIC_TIMESTAMP: u64 = 0x4000_0000_0000_0000;

/// The value bits of a since value.
pub const SINCE_VALUE_MASK: u64 = 0x00ff_ffff_ffff_ffff;

/// Whether the since value `v` locks by timestamp.
pub open spec fn is_timestamp_since(v: u64) -> bool {
    v & SINCE_METRIC_MASK == SINCE_METRIC_TIMESTAMP
}

/// The timestamp, in milliseconds, of a since value that locks by timestamp:
/// its value bits count seconds.
pub open spec fn since_timestamp_millis(v: u64) -> int {
    (v & SINCE_VALUE_MASK) as int * 1000
}

/// Relies on ckb_std::since::Since::is_absolute: a since value is absolute when
/// its lock-type flag (the top bit) is clear.
#[verifier::external_body]
pub(crate) fn since_is_absolute(v: u64) -> (r: bool)
    ensures
        r == (v & SINCE_LOCK_TYPE_FLAG == 0),
{
    Since::new(v).is_absolute()
}

/// Relies on ckb_std::since::Since::extract_lock_value: a since value whose metric
/// bits are those of a timestamp gives `LockValue::Timestamp` of its value bits
/// times 1000 (a product that must fit in 64 bits); any other metric gives
/// another lock value or none.
#[verifier::external_body]
pub(crate) fn since_timestamp(v: u64) -> (r: Option<u64>)
    requires
        is_timestamp_since(v) ==> since_timestamp_millis(v) <= u64::MAX,
    ensures
        r == (if is_timestamp_since(v) {
            Some(since_timestamp_millis(v) as u64)
        } else {
            None::<u64>
        }),
{
    match Since::new(v).extract_lock_value() {
        Some(LockValue::Timestamp(t)) => Some(t),
        _ => None,
    }
}

} // verus!
