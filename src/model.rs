use crate::constants::{ACCOUNT_STORAGE_OVERHEAD, BUTTON_FEE};
use crate::error::{ButtonProgramError, TransitionError};
use crate::state::{inputs_valid, new_button, AccountView, ButtonView, RecordView, LIKE_SPACE};
use vstd::prelude::*;

verus! {

/// The ledger as a mathematical value: the program id, the rent rate and the
/// account stored at each occupied address.
pub struct LedgerModel {
    pub program_id: Seq<u8>,
    pub rent_per_byte: u64,
    pub accounts: Map<Seq<u8>, AccountView>,
}

impl LedgerModel {
    /// The same ledger with `v` stored at `a`.
    pub open spec fn with_account(self, a: Seq<u8>, v: AccountView) -> LedgerModel {
        LedgerModel {
            program_id: self.program_id,
            rent_per_byte: self.rent_per_byte,
            accounts: self.accounts.insert(a, v),
        }
    }

    /// The balance at `a`: zero where no account is stored.
    pub open spec fn balance(self, a: Seq<u8>) -> u64 {
        if self.accounts.contains_key(a) {
            self.accounts[a].lamports
        } else {
            0
        }
    }

    /// Whether a Button record is stored at `a`.
    pub open spec fn holds_button(self, a: Seq<u8>) -> bool {
        self.accounts.contains_key(a) && self.accounts[a].record is Button
    }

    /// Whether a Like marker is stored at `a`.
    pub open spec fn holds_like(self, a: Seq<u8>) -> bool {
        self.accounts.contains_key(a) && self.accounts[a].record is Like
    }

    /// The Button record stored at `a`, where `holds_button(a)`.
    pub open spec fn button_at(self, a: Seq<u8>) -> ButtonView {
        self.accounts[a].record->Button_0
    }
}

/// The balance that keeps an account of `space` bytes exempt from rent.
pub open spec fn minimum_balance(space: nat, rent_per_byte: u64) -> nat {
    ((ACCOUNT_STORAGE_OVERHEAD + space) * rent_per_byte) as nat
}

/// Takes `amount` from the plain account at `from`.
pub open spec fn debit(m: LedgerModel, from: Seq<u8>, amount: u64) -> Result<
    LedgerModel,
    TransitionError,
> {
    if !m.accounts.contains_key(from) {
        Err(TransitionError::InsufficientLamports)
    } else if !(m.accounts[from].record is Wallet) {
        Err(TransitionError::NotSystemAccount)
    } else if m.accounts[from].lamports < amount {
        Err(TransitionError::InsufficientLamports)
    } else {
        Ok(
            m.with_account(
                from,
                AccountView {
                    lamports: (m.accounts[from].lamports - amount) as u64,
                    record: RecordView::Wallet,
                },
            ),
        )
    }
}

/// Adds `amount` to the account at `to`, opening a plain account there if
/// none is stored.
pub open spec fn credit(m: LedgerModel, to: Seq<u8>, amount: u64) -> Result<
    LedgerModel,
    TransitionError,
> {
    if !m.accounts.contains_key(to) {
        Ok(m.with_account(to, AccountView { lamports: amount, record: RecordView::Wallet }))
    } else if m.accounts[to].lamports + amount > u64::MAX {
        Err(TransitionError::ArithmeticOverflow)
    } else {
        Ok(
            m.with_account(
                to,
                AccountView {
                    lamports: (m.accounts[to].lamports + amount) as u64,
                    record: m.accounts[to].record,
                },
            ),
        )
    }
}

/// Moves `amount` from the plain account at `from` to the account at `to`.
pub open spec fn transfer(m: LedgerModel, from: Seq<u8>, to: Seq<u8>, amount: u64) -> Result<
    LedgerModel,
    TransitionError,
> {
    match debit(m, from, amount) {
        Ok(m1) => credit(m1, to, amount),
        Err(e) => Err(e),
    }
}

/// What the payer adds to an address that holds `current` base units so
/// that it reaches the minimum balance `rent`: all of it where the address is
/// empty, else what is missing of the larger of `rent` and one.
pub open spec fn top_up(rent: nat, current: u64) -> nat {
    if current == 0 {
        rent
    } else {
        let need = if rent == 0 {
            1
        } else {
            rent
        };
        if need > current {
            (need - current) as nat
        } else {
            0
        }
    }
}

/// Stores `record` at `target`, which must hold no record, and has `payer`
/// bring its balance up to the minimum for `space` bytes. An address that
/// holds only base units keeps them and is topped up.
pub open spec fn allocate(
    m: LedgerModel,
    payer: Seq<u8>,
    target: Seq<u8>,
    space: nat,
    record: RecordView,
) -> Result<LedgerModel, TransitionError> {
    let rent = minimum_balance(space, m.rent_per_byte);
    let current = m.balance(target);
    let top = top_up(rent, current);
    if m.accounts.contains_key(target) && !(m.accounts[target].record is Wallet) {
        Err(TransitionError::AccountAlreadyInUse)
    } else if rent > u64::MAX {
        Err(TransitionError::ArithmeticOverflow)
    } else if current != 0 && payer == target {
        Err(TransitionError::PayerIsTarget)
    } else {
        match debit(m, payer, top as u64) {
            Ok(m1) => Ok(
                m1.with_account(
                    target,
                    AccountView { lamports: (m1.balance(target) + top) as u64, record },
                ),
            ),
            Err(e) => Err(e),
        }
    }
}

/// CreateButton at the address `button`: the record is allocated with rent
/// from `payer`, then the strings are checked, then `creator` pays the fee to
/// `fee_destination`.
pub open spec fn create_button_at(
    m: LedgerModel,
    button: Seq<u8>,
    payer: Seq<u8>,
    creator: Seq<u8>,
    fee_destination: Seq<u8>,
    title: Seq<char>,
    color: Seq<char>,
    sound_uri: Seq<char>,
) -> Result<LedgerModel, TransitionError> {
    let b = new_button(title, color, creator, sound_uri);
    match allocate(m, payer, button, b.space(), RecordView::Button(b)) {
        Ok(m1) => if !inputs_valid(title, color, sound_uri) {
            Err(TransitionError::Program(ButtonProgramError::InvalidInput))
        } else if m1.balance(creator) < BUTTON_FEE {
            Err(TransitionError::Program(ButtonProgramError::InsufficientFunds))
        } else {
            transfer(m1, creator, fee_destination, BUTTON_FEE)
        },
        Err(e) => Err(e),
    }
}

/// LikeButton on the button at `button`, with the marker at `like` funded by
/// `user`.
pub open spec fn like_button_at(m: LedgerModel, button: Seq<u8>, like: Seq<u8>, user: Seq<u8>) -> Result<
    LedgerModel,
    TransitionError,
> {
    if !m.holds_button(button) {
        Err(TransitionError::AccountNotInitialized)
    } else {
        match allocate(m, user, like, LIKE_SPACE as nat, RecordView::Like) {
            Ok(m1) => {
                let b = m1.button_at(button);
                if b.number_of_likes == u64::MAX {
                    Err(TransitionError::Program(ButtonProgramError::Overflow))
                } else {
                    Ok(
                        m1.with_account(
                            button,
                            AccountView {
                                lamports: m1.accounts[button].lamports,
                                record: RecordView::Button(b.liked()),
                            },
                        ),
                    )
                }
            },
            Err(e) => Err(e),
        }
    }
}

} // verus!
