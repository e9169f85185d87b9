use crate::address::{button_address, button_seeds, derived_address, like_address, like_seeds, Address};
use crate::error::TransitionError;
use crate::ledger::Ledger;
use crate::model::{like_button_at, LedgerModel};
use crate::state::{next_like_count, Button, Record, LIKE_SPACE};
use vstd::prelude::*;

verus! {

/// The accounts that LikeButton names.
#[derive(Clone, Copy, Debug)]
pub struct LikeButton {
    /// The liked button: the address derived from the creator.
    pub button: Address,
    /// Where the Like marker goes: the address derived from the button and the user.
    pub like: Address,
    /// Likes the button and pays the marker's rent.
    pub user: Address,
    /// Used only to derive the button's address.
    pub creator: Address,
}

/// LikeButton as a whole: both addresses are derived, must be the ones
/// supplied, and the like is recorded there.
pub open spec fn like_button_transition(m: LedgerModel, accounts: LikeButton) -> Result<
    LedgerModel,
    TransitionError,
> {
    match derived_address(button_seeds(accounts.creator@), m.program_id) {
        None => Err(TransitionError::AddressUnavailable),
        Some(b) => if b != accounts.button@ {
            Err(TransitionError::ConstraintSeeds)
        } else {
            match derived_address(like_seeds(b, accounts.user@), m.program_id) {
                None => Err(TransitionError::AddressUnavailable),
                Some(l) => if l != accounts.like@ {
                    Err(TransitionError::ConstraintSeeds)
                } else {
                    like_button_at(m, b, l, accounts.user@)
                },
            }
        },
    }
}

impl Ledger {
    /// Records that `user` likes the button at `button`: allocates the Like
    /// marker at `like` with rent from `user` and adds one to the button's
    /// counter. All of it happens, or none.
    pub fn like_button_record(&mut self, button: &Address, like: &Address, user: &Address) -> (r:
        Result<(), TransitionError>)
        requires
            old(self).wf(),
        ensures
            final(self).wf(),
            match like_button_at(old(self)@, button@, like@, user@) {
                Ok(m) => r is Ok && final(self)@ == m,
                Err(e) => r == Err::<(), TransitionError>(e) && final(self)@ == old(self)@,
            },
    {
        if self.button(button).is_none() {
            return Err(TransitionError::AccountNotInitialized);
        }
        let mut work = self.duplicate();
        work.allocate(user, like, LIKE_SPACE as u128, Record::Like)?;
        match work.button(button) {
            None => Err(TransitionError::AccountNotInitialized),
            Some(b) => {
                let count = match next_like_count(b.number_of_likes) {
                    Ok(c) => c,
                    Err(e) => {
                        return Err(TransitionError::Program(e));
                    },
                };
                let liked = Button {
                    title: b.title,
                    color: b.color,
                    creator: b.creator,
                    sound_uri: b.sound_uri,
                    number_of_likes: count,
                };
                work.set_record(button, Record::Button(liked));
                *self = work;
                Ok(())
            },
        }
    }
}

/// Runs LikeButton on the ledger with the given accounts.
pub fn handler(ledger: &mut Ledger, accounts: &LikeButton) -> (r: Result<(), TransitionError>)
    requires
        old(ledger).wf(),
    ensures
        final(ledger).wf(),
        match like_button_transition(old(ledger)@, *accounts) {
            Ok(m) => r is Ok && final(ledger)@ == m,
            Err(e) => r == Err::<(), TransitionError>(e) && final(ledger)@ == old(ledger)@,
        },
{
    let program_id = ledger.program_id();
    let b = match button_address(&program_id, &accounts.creator) {
        None => {
            return Err(TransitionError::AddressUnavailable);
        },
        Some(b) => b,
    };
    if !b.equals(&accounts.button) {
        return Err(TransitionError::ConstraintSeeds);
    }
    let l = match like_address(&program_id, &b, &accounts.user) {
        None => {
            return Err(TransitionError::AddressUnavailable);
        },
        Some(l) => l,
    };
    if !l.equals(&accounts.like) {
        return Err(TransitionError::ConstraintSeeds);
    }
    ledger.like_button_record(&b, &l, &accounts.user)
}

} // verus!
