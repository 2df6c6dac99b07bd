//! Conversions between the unsigned counters of the domain and the signed
//! integers of the database.
use vstd::prelude::*;

verus! {

/// The signed form of `value`, when it has one.
pub fn signed(value: u64) -> (result: Option<i64>)
    ensures
        value <= i64::MAX ==> result == Some(value as i64),
        value > i64::MAX ==> result is None,
{
    if value <= 0x7fff_ffff_ffff_ffff {
        Some(value as i64)
    } else {
        None
    }
}

/// The unsigned form of `value`, when it has one.
pub fn unsigned(value: i64) -> (result: Option<u64>)
    ensures
        value >= 0 ==> result == Some(value as u64),
        value < 0 ==> result is None,
{
    if value >= 0 {
        Some(value as u64)
    } else {
        None
    }
}

} // verus!
