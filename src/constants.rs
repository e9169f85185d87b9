use vstd::prelude::*;

verus! {

/// Fee, in base units, that a creator pays to register a button.
pub const BUTTON_FEE: u64 = 20_000_000;

/// Bytes that every account is charged rent for beyond its own storage.
pub const ACCOUNT_STORAGE_OVERHEAD: u64 = 128;

} // verus!
