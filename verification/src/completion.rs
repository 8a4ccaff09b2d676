//! Results of asynchronous librados operations.

use vstd::prelude::*;

verus! {

/// The result of an asynchronous operation from its return value: a
/// failure code when negative, else the value.
pub fn aio_result(ret_value: i32) -> (r: Result<u32, i32>)
    ensures
        ret_value < 0 ==> r == Err::<u32, i32>(ret_value),
        ret_value >= 0 ==> r == Ok::<u32, i32>(ret_value as u32),
{
    if ret_value < 0 {
        Err(ret_value)
    } else {
        Ok(ret_value as u32)
    }
}

} // verus!
