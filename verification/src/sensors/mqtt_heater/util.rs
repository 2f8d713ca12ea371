//! Flags as the webhook and the command channel write them: 0 and 1.

use vstd::prelude::*;

verus! {

/// The number that stands for a flag: 1 for set, 0 for clear.
pub open spec fn flag_number(b: bool) -> u8 {
    if b {
        1
    } else {
        0
    }
}

/// The flag that a number stands for; any number but 0 and 1 is itself the
/// error.
pub open spec fn number_flag(n: u8) -> Result<bool, u8> {
    if n == 0 {
        Ok(false)
    } else if n == 1 {
        Ok(true)
    } else {
        Err(n)
    }
}

/// Writes a flag as a number.
pub fn int_from_bool(data: &bool) -> (n: u8)
    ensures
        n == flag_number(*data),
{
    if *data {
        1
    } else {
        0
    }
}

/// Reads a flag from a number.
pub fn bool_from_int(n: u8) -> (r: Result<bool, u8>)
    ensures
        r == number_flag(n),
{
    if n == 0 {
        Ok(false)
    } else if n == 1 {
        Ok(true)
    } else {
        Err(n)
    }
}

/// Reading a written flag gives the flag back, and only 0 and 1 are read as
/// flags.
pub proof fn lemma_flag_round_trip(b: bool, n: u8)
    ensures
        number_flag(flag_number(b)) == Ok::<bool, u8>(b),
        number_flag(n) is Ok <==> n <= 1,
        number_flag(n) is Ok ==> flag_number(number_flag(n)->Ok_0) == n,
{
}

} // verus!
