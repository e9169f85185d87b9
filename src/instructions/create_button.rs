use crate::address::{button_address, button_seeds, derived_address, Address};
use crate::constants::BUTTON_FEE;
use crate::error::TransitionError;
use crate::ledger::Ledger;
use crate::model::{create_button_at, LedgerModel};
use crate::state::{check_fee, validate_inputs, Button, Record};
use vstd::prelude::*;

verus! {

/// The accounts that CreateButton names.
#[derive(Clone, Copy, Debug)]
pub struct CreateButton {
    /// Pays the rent of the new record.
    pub fee_payer: Address,
    /// Where the record goes: the address derived from the creator.
    pub button: Address,
    /// Owns the button and pays the fee.
    pub creator: Address,
    /// Receives the fee.
    pub admin_wallet: Address,
}

/// CreateButton as a whole: the button address is derived from the creator,
/// must be the one supplied, and the record is created there.
pub open spec fn create_button_transition(
    m: LedgerModel,
    accounts: CreateButton,
    title: Seq<char>,
    color: Seq<char>,
    sound_uri: Seq<char>,
) -> Result<LedgerModel, TransitionError> {
    match derived_address(button_seeds(accounts.creator@), m.program_id) {
        None => Err(TransitionError::AddressUnavailable),
        Some(a) => if a != accounts.button@ {
            Err(TransitionError::ConstraintSeeds)
        } else {
            create_button_at(
                m,
                a,
                accounts.fee_payer@,
                accounts.creator@,
                accounts.admin_wallet@,
                title,
                color,
                sound_uri,
            )
        },
    }
}

impl Ledger {
    /// Creates the Button record at `button`: allocates the record with rent
    /// from `payer`, checks the strings, then moves the fee from `creator` to
    /// `fee_destination`. All of it happens, or none.
    pub fn create_button_record(
        &mut self,
        button: &Address,
        payer: &Address,
        creator: &Address,
        fee_destination: &Address,
        title: String,
        color: String,
        sound_uri: String,
    ) -> (r: Result<(), TransitionError>)
        requires
            old(self).wf(),
        ensures
            final(self).wf(),
            match create_button_at(
                old(self)@,
                button@,
                payer@,
                creator@,
                fee_destination@,
                title@,
                color@,
                sound_uri@,
            ) {
                Ok(m) => r is Ok && final(self)@ == m,
                Err(e) => r == Err::<(), TransitionError>(e) && final(self)@ == old(self)@,
            },
    {
        let space: u128 = 8 + 4 + title.as_str().as_bytes().len() as u128 + 4
            + color.as_str().as_bytes().len() as u128 + 32 + 4
            + sound_uri.as_str().as_bytes().len() as u128 + 8;
        let valid = validate_inputs(&title, &color, &sound_uri);
        let record = Record::Button(
            Button { title, color, creator: *creator, sound_uri, number_of_likes: 0 },
        );
        let mut work = self.duplicate();
        work.allocate(payer, button, space, record)?;
        if let Err(e) = valid {
            return Err(TransitionError::Program(e));
        }
        if let Err(e) = check_fee(work.balance(creator)) {
            return Err(TransitionError::Program(e));
        }
        work.transfer(creator, fee_destination, BUTTON_FEE)?;
        *self = work;
        Ok(())
    }
}

/// Runs CreateButton on the ledger with the given accounts and strings.
pub fn handler(
    ledger: &mut Ledger,
    accounts: &CreateButton,
    title: String,
    color: String,
    sound_uri: String,
) -> (r: Result<(), TransitionError>)
    requires
        old(ledger).wf(),
    ensures
        final(ledger).wf(),
        match create_button_transition(old(ledger)@, *accounts, title@, color@, sound_uri@) {
            Ok(m) => r is Ok && final(ledger)@ == m,
            Err(e) => r == Err::<(), TransitionError>(e) && final(ledger)@ == old(ledger)@,
        },
{
    let program_id = ledger.program_id();
    match button_address(&program_id, &accounts.creator) {
        None => Err(TransitionError::AddressUnavailable),
        Some(a) => {
            if !a.equals(&accounts.button) {
                return Err(TransitionError::ConstraintSeeds);
            }
            ledger.create_button_record(
                &a,
                &accounts.fee_payer,
                &accounts.creator,
                &accounts.admin_wallet,
                title,
                color,
                sound_uri,
            )
        },
    }
}

} // verus!
