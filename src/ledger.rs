//! Entry point for building ledger requests.
use vstd::prelude::*;

verus! {

pub struct LedgerService {}

impl LedgerService {
    pub fn new() -> (r: LedgerService) {
        LedgerService {  }
    }
}

} // verus!
