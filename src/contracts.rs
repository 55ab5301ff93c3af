//! The gas rule that a contract payload must meet before the sandbox runs
//! it.

use vstd::prelude::*;

verus! {

/// The least gas limit a contract may be run with.
pub const MIN_CONTRACT_GAS: u64 = 500;

/// Whether a contract may run with `gas_limit`.
pub fn check_gas(gas_limit: u64) -> (r: Result<(), String>)
    ensures
        r is Ok <==> gas_limit >= MIN_CONTRACT_GAS,
        r is Err ==> r->Err_0@ == "Insufficient gas"@,
{
    broadcast use vstd::string::to_string_from_display_ensures_for_str;

    if gas_limit < MIN_CONTRACT_GAS {
        Err("Insufficient gas".to_string())
    } else {
        Ok(())
    }
}

} // verus!
