//! Miscellaneous functions used by other modules.

use vstd::prelude::*;
use crate::banks::Bank;

verus! {

/// Check to see whether or not a bank has been loaded into memory: one
/// has, unless the title of `bank` is empty.
pub fn check_for_bank_loaded(bank: &Bank) -> (loaded: bool)
    ensures
        loaded == (bank@.bank_title.len() != 0),
{
    !bank.bank_title.as_str().is_empty()
}

} // verus!
