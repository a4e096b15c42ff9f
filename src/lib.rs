//! Issuance side of CL-signature anonymous credentials: safe-prime issuer keys,
//! blinded claim requests and primary credentials, over arbitrary-precision
//! integers computed by OpenSSL.
use vstd::prelude::*;

pub mod bignat;
pub mod anoncreds;
pub mod credential;
pub mod ledger;
pub mod merkletree;

verus! {

} // verus!
