use crate::address::Address;
use crate::constants::BUTTON_FEE;
use crate::error::ButtonProgramError;
use vstd::prelude::*;
use vstd::utf8::encode_utf8;

verus! {

/// Longest title, in bytes.
pub const MAX_TITLE_LEN: usize = 25;

/// Longest color, in bytes.
pub const MAX_COLOR_LEN: usize = 20;

/// Longest sound URI, in bytes.
pub const MAX_SOUND_URI_LEN: usize = 150;

/// Storage of a Like marker: its discriminator alone.
pub const LIKE_SPACE: u64 = 8;

/// A button, stored once per creator.
#[derive(Debug)]
pub struct Button {
    pub title: String,
    pub color: String,
    pub creator: Address,
    pub sound_uri: String,
    pub number_of_likes: u64,
}

/// What a Button record holds.
pub struct ButtonView {
    pub title: Seq<char>,
    pub color: Seq<char>,
    pub creator: Seq<u8>,
    pub sound_uri: Seq<char>,
    pub number_of_likes: u64,
}

impl View for Button {
    type V = ButtonView;

    open spec fn view(&self) -> ButtonView {
        ButtonView {
            title: self.title@,
            color: self.color@,
            creator: self.creator@,
            sound_uri: self.sound_uri@,
            number_of_likes: self.number_of_likes,
        }
    }
}

/// The number of bytes that a string takes in UTF-8.
pub open spec fn byte_len(s: Seq<char>) -> nat {
    encode_utf8(s).len()
}

impl ButtonView {
    /// The storage that the record takes: an 8-byte discriminator, the three
    /// strings each behind a 4-byte length, the 32-byte creator and the
    /// 8-byte counter.
    pub open spec fn space(self) -> nat {
        8 + (4 + byte_len(self.title)) + (4 + byte_len(self.color)) + 32 + (4 + byte_len(
            self.sound_uri,
        )) + 8
    }

    /// The same record with its counter set to `n`.
    pub open spec fn with_count(self, n: u64) -> ButtonView {
        ButtonView {
            title: self.title,
            color: self.color,
            creator: self.creator,
            sound_uri: self.sound_uri,
            number_of_likes: n,
        }
    }

    /// The same record with one more like.
    pub open spec fn liked(self) -> ButtonView {
        ButtonView {
            title: self.title,
            color: self.color,
            creator: self.creator,
            sound_uri: self.sound_uri,
            number_of_likes: (self.number_of_likes + 1) as u64,
        }
    }
}

/// The record of a button that was just created.
pub open spec fn new_button(
    title: Seq<char>,
    color: Seq<char>,
    creator: Seq<u8>,
    sound_uri: Seq<char>,
) -> ButtonView {
    ButtonView { title, color, creator, sound_uri, number_of_likes: 0 }
}

/// Whether the strings of a new button are within their bounds.
pub open spec fn inputs_valid(title: Seq<char>, color: Seq<char>, sound_uri: Seq<char>) -> bool {
    &&& byte_len(title) <= MAX_TITLE_LEN
    &&& byte_len(color) <= MAX_COLOR_LEN
    &&& byte_len(sound_uri) <= MAX_SOUND_URI_LEN
}

/// Checks the strings of a new button against their bounds, in bytes.
pub fn validate_inputs(title: &String, color: &String, sound_uri: &String) -> (r: Result<
    (),
    ButtonProgramError,
>)
    ensures
        r is Ok <==> inputs_valid(title@, color@, sound_uri@),
        r is Err ==> r == Err::<(), ButtonProgramError>(ButtonProgramError::InvalidInput),
{
    if title.as_str().as_bytes().len() <= MAX_TITLE_LEN && color.as_str().as_bytes().len()
        <= MAX_COLOR_LEN && sound_uri.as_str().as_bytes().len() <= MAX_SOUND_URI_LEN {
        Ok(())
    } else {
        Err(ButtonProgramError::InvalidInput)
    }
}

/// Checks that a creator holding `creator_lamports` can pay the button fee.
pub fn check_fee(creator_lamports: u64) -> (r: Result<(), ButtonProgramError>)
    ensures
        creator_lamports >= BUTTON_FEE ==> r == Ok::<(), ButtonProgramError>(()),
        creator_lamports < BUTTON_FEE ==> r == Err::<(), ButtonProgramError>(
            ButtonProgramError::InsufficientFunds,
        ),
{
    if creator_lamports >= BUTTON_FEE {
        Ok(())
    } else {
        Err(ButtonProgramError::InsufficientFunds)
    }
}

/// The like counter after one more like, or `Overflow` at its maximum.
pub fn next_like_count(n: u64) -> (r: Result<u64, ButtonProgramError>)
    ensures
        n < u64::MAX ==> r == Ok::<u64, ButtonProgramError>((n + 1) as u64),
        n == u64::MAX ==> r == Err::<u64, ButtonProgramError>(ButtonProgramError::Overflow),
{
    match n.checked_add(1) {
        Some(m) => Ok(m),
        None => Err(ButtonProgramError::Overflow),
    }
}

impl Button {
    /// A copy of the button.
    pub fn duplicate(&self) -> (r: Button)
        ensures
            r@ == self@,
    {
        Button {
            title: self.title.clone(),
            color: self.color.clone(),
            creator: self.creator,
            sound_uri: self.sound_uri.clone(),
            number_of_likes: self.number_of_likes,
        }
    }
}

/// What an address holds: a plain balance, a Button record or a Like marker.
#[derive(Debug)]
pub enum Record {
    Wallet,
    Button(Button),
    Like,
}

/// What a record holds.
pub enum RecordView {
    Wallet,
    Button(ButtonView),
    Like,
}

impl View for Record {
    type V = RecordView;

    open spec fn view(&self) -> RecordView {
        match self {
            Record::Wallet => RecordView::Wallet,
            Record::Button(b) => RecordView::Button(b@),
            Record::Like => RecordView::Like,
        }
    }
}

impl Record {
    /// A copy of the record.
    pub fn duplicate(&self) -> (r: Record)
        ensures
            r@ == self@,
    {
        match self {
            Record::Wallet => Record::Wallet,
            Record::Button(b) => Record::Button(b.duplicate()),
            Record::Like => Record::Like,
        }
    }
}

/// An account of the ledger: an address, its balance and its record.
#[derive(Debug)]
pub struct Account {
    pub address: Address,
    pub lamports: u64,
    pub record: Record,
}

/// What an account holds, apart from its address.
pub struct AccountView {
    pub lamports: u64,
    pub record: RecordView,
}

impl View for Account {
    type V = AccountView;

    open spec fn view(&self) -> AccountView {
        AccountView { lamports: self.lamports, record: self.record@ }
    }
}

impl Account {
    /// A copy of the account.
    pub fn duplicate(&self) -> (r: Account)
        ensures
            r@ == self@,
            r.address == self.address,
    {
        Account { address: self.address, lamports: self.lamports, record: self.record.duplicate() }
    }
}

} // verus!
