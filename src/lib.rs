//! A ledger of buttons: a creator registers a titled, colored button with a
//! sound by paying a fixed fee, and every other user may like it once. Records
//! live at addresses derived from their keys, so one-per-creator and
//! one-per-user rules hold by allocation alone. Each transition is specified
//! over [`model::LedgerModel`] and either happens whole or leaves the ledger
//! unchanged.

pub mod address;
pub mod constants;
pub mod error;
pub mod instructions;
pub mod laws;
pub mod ledger;
pub mod model;
pub mod state;

pub use address::Address;
pub use constants::{ACCOUNT_STORAGE_OVERHEAD, BUTTON_FEE};
pub use error::{ButtonProgramError, TransitionError};
pub use instructions::create_button::{create_button_transition, CreateButton};
pub use instructions::like_button::{like_button_transition, LikeButton};
pub use ledger::Ledger;
pub use state::{Account, Button, Record};

use vstd::prelude::*;

verus! {

/// Creates a button for `accounts.creator` and moves the fee to
/// `accounts.admin_wallet`.
pub fn create_button(
    ledger: &mut Ledger,
    accounts: &CreateButton,
    title: String,
    color: String,
    sound_uri: String,
) -> (r: Result<(), TransitionError>)
    requires
        old(ledger).wf(),
    ensures
        final(ledger).wf(),
        match create_button_transition(old(ledger)@, *accounts, title@, color@, sound_uri@) {
            Ok(m) => r is Ok && final(ledger)@ == m,
            Err(e) => r == Err::<(), TransitionError>(e) && final(ledger)@ == old(ledger)@,
        },
{
    instructions::create_button::handler(ledger, accounts, title, color, sound_uri)
}

/// Likes a button and increments its like counter.
pub fn like_button(ledger: &mut Ledger, accounts: &LikeButton) -> (r: Result<(), TransitionError>)
    requires
        old(ledger).wf(),
    ensures
        final(ledger).wf(),
        match like_button_transition(old(ledger)@, *accounts) {
            Ok(m) => r is Ok && final(ledger)@ == m,
            Err(e) => r == Err::<(), TransitionError>(e) && final(ledger)@ == old(ledger)@,
        },
{
    instructions::like_button::handler(ledger, accounts)
}

} // verus!
