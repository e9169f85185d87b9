use anchor_lang::prelude::Pubkey;
use button_program::address::{button_address, like_address};
use button_program::ledger::Ledger;
use button_program::state::{check_fee, next_like_count, validate_inputs};
use button_program::{
    create_button, like_button, Address, Button, ButtonProgramError, CreateButton, LikeButton,
    Record, TransitionError, BUTTON_FEE,
};

const RENT_PER_BYTE: u64 = 6960;
const START: u64 = 1_000_000_000_000;

fn addr(n: u8) -> Address {
    let mut bytes = [0u8; 32];
    bytes[0] = n;
    bytes[31] = 200;
    Address::new(bytes)
}

fn program_id() -> Address {
    Address::new([7u8; 32])
}

fn funded_ledger(accounts: &[Address]) -> Ledger {
    let mut ledger = Ledger::new(program_id(), RENT_PER_BYTE);
    for a in accounts {
        ledger.deposit(a, START).unwrap();
    }
    ledger
}

fn create_accounts(ledger: &Ledger, payer: Address, creator: Address, admin: Address) -> CreateButton {
    let button = button_address(&ledger.program_id(), &creator).unwrap();
    CreateButton { fee_payer: payer, button, creator, admin_wallet: admin }
}

fn like_accounts(ledger: &Ledger, user: Address, creator: Address) -> LikeButton {
    let button = button_address(&ledger.program_id(), &creator).unwrap();
    let like = like_address(&ledger.program_id(), &button, &user).unwrap();
    LikeButton { button, like, user, creator }
}

fn rent(space: u64) -> u64 {
    (128 + space) * RENT_PER_BYTE
}

#[test]
fn create_button_ix_success() {
    let (payer, creator, admin) = (addr(1), addr(2), addr(3));
    let mut ledger = funded_ledger(&[payer, creator]);
    let accounts = create_accounts(&ledger, payer, creator, admin);
    let title: String = Default::default();
    let color: String = Default::default();
    let sound_uri: String = Default::default();
    let result = create_button(&mut ledger, &accounts, title, color, sound_uri);
    assert!(result.is_ok());
}

#[test]
fn like_button_ix_success() {
    let (payer, creator, admin, user) = (addr(1), addr(2), addr(3), addr(4));
    let mut ledger = funded_ledger(&[payer, creator, user]);
    let accounts = create_accounts(&ledger, payer, creator, admin);
    create_button(&mut ledger, &accounts, String::new(), String::new(), String::new()).unwrap();
    let like = like_accounts(&ledger, user, creator);
    let result = like_button(&mut ledger, &like);
    assert!(result.is_ok());
}

#[test]
fn create_then_read_returns_the_values() {
    let (payer, creator, admin) = (addr(1), addr(2), addr(3));
    let mut ledger = funded_ledger(&[payer, creator]);
    let accounts = create_accounts(&ledger, payer, creator, admin);
    create_button(
        &mut ledger,
        &accounts,
        "Big red".to_string(),
        "red".to_string(),
        "https://example.com/honk.mp3".to_string(),
    )
    .unwrap();
    let b: Button = ledger.button(&accounts.button).unwrap();
    assert_eq!(b.title, "Big red");
    assert_eq!(b.color, "red");
    assert_eq!(b.sound_uri, "https://example.com/honk.mp3");
    assert_eq!(b.creator, creator);
    assert_eq!(b.number_of_likes, 0);
}

#[test]
fn create_moves_rent_from_payer_and_fee_from_creator() {
    let (payer, creator, admin) = (addr(1), addr(2), addr(3));
    let mut ledger = funded_ledger(&[payer, creator]);
    let accounts = create_accounts(&ledger, payer, creator, admin);
    create_button(&mut ledger, &accounts, "ab".to_string(), "cde".to_string(), "f".to_string())
        .unwrap();
    let space = 8 + 4 + 2 + 4 + 3 + 32 + 4 + 1 + 8;
    assert_eq!(ledger.balance(&payer), START - rent(space));
    assert_eq!(ledger.balance(&creator), START - 20_000_000);
    assert_eq!(ledger.balance(&admin), 20_000_000);
    assert_eq!(ledger.balance(&accounts.button), rent(space));
    assert_eq!(BUTTON_FEE, 20_000_000);
}

#[test]
fn create_with_same_payer_and_creator() {
    let (creator, admin) = (addr(2), addr(3));
    let mut ledger = funded_ledger(&[creator]);
    let accounts = create_accounts(&ledger, creator, creator, admin);
    create_button(&mut ledger, &accounts, String::new(), String::new(), String::new()).unwrap();
    assert_eq!(ledger.balance(&creator), START - rent(60) - 20_000_000);
}

#[test]
fn create_title_too_long_is_invalid_input() {
    let (payer, creator, admin) = (addr(1), addr(2), addr(3));
    let mut ledger = funded_ledger(&[payer, creator]);
    let accounts = create_accounts(&ledger, payer, creator, admin);
    let title = "a".repeat(26);
    let r = create_button(&mut ledger, &accounts, title, String::new(), String::new());
    assert_eq!(r, Err(TransitionError::Program(ButtonProgramError::InvalidInput)));
    assert!(!ledger.is_allocated(&accounts.button));
    assert_eq!(ledger.balance(&payer), START);
    assert_eq!(ledger.balance(&creator), START);
}

#[test]
fn create_title_at_bound_is_accepted() {
    let (payer, creator, admin) = (addr(1), addr(2), addr(3));
    let mut ledger = funded_ledger(&[payer, creator]);
    let accounts = create_accounts(&ledger, payer, creator, admin);
    let r = create_button(&mut ledger, &accounts, "a".repeat(25), "b".repeat(20), "c".repeat(150));
    assert!(r.is_ok());
}

#[test]
fn create_long_color_or_sound_is_invalid_input() {
    let (payer, creator, admin) = (addr(1), addr(2), addr(3));
    let mut ledger = funded_ledger(&[payer, creator]);
    let accounts = create_accounts(&ledger, payer, creator, admin);
    let r = create_button(&mut ledger, &accounts, String::new(), "b".repeat(21), String::new());
    assert_eq!(r, Err(TransitionError::Program(ButtonProgramError::InvalidInput)));
    let r = create_button(&mut ledger, &accounts, String::new(), String::new(), "c".repeat(151));
    assert_eq!(r, Err(TransitionError::Program(ButtonProgramError::InvalidInput)));
    // Lengths count bytes: nine three-byte characters pass the title bound.
    let r = create_button(&mut ledger, &accounts, "\u{20ac}".repeat(9), String::new(), String::new());
    assert_eq!(r, Err(TransitionError::Program(ButtonProgramError::InvalidInput)));
    assert!(!ledger.is_allocated(&accounts.button));
}

#[test]
fn create_twice_collides() {
    let (payer, creator, admin) = (addr(1), addr(2), addr(3));
    let mut ledger = funded_ledger(&[payer, creator]);
    let accounts = create_accounts(&ledger, payer, creator, admin);
    create_button(&mut ledger, &accounts, "first".to_string(), "blue".to_string(), String::new())
        .unwrap();
    let r = create_button(&mut ledger, &accounts, "second".to_string(), "red".to_string(), String::new());
    assert_eq!(r, Err(TransitionError::AccountAlreadyInUse));
    let b = ledger.button(&accounts.button).unwrap();
    assert_eq!(b.title, "first");
    assert_eq!(b.color, "blue");
    assert_eq!(ledger.balance(&creator), START - 20_000_000);
}

#[test]
fn create_insufficient_funds_changes_nothing() {
    let (payer, creator, admin) = (addr(1), addr(2), addr(3));
    let mut ledger = funded_ledger(&[payer]);
    ledger.deposit(&creator, 19_999_999).unwrap();
    let accounts = create_accounts(&ledger, payer, creator, admin);
    let r = create_button(&mut ledger, &accounts, String::new(), String::new(), String::new());
    assert_eq!(r, Err(TransitionError::Program(ButtonProgramError::InsufficientFunds)));
    assert!(!ledger.is_allocated(&accounts.button));
    assert!(!ledger.is_allocated(&admin));
    assert_eq!(ledger.balance(&payer), START);
    assert_eq!(ledger.balance(&creator), 19_999_999);
}

#[test]
fn create_payer_without_rent_fails() {
    let (payer, creator, admin) = (addr(1), addr(2), addr(3));
    let mut ledger = funded_ledger(&[creator]);
    ledger.deposit(&payer, rent(60) - 1).unwrap();
    let accounts = create_accounts(&ledger, payer, creator, admin);
    let r = create_button(&mut ledger, &accounts, String::new(), String::new(), String::new());
    assert_eq!(r, Err(TransitionError::InsufficientLamports));
    assert!(!ledger.is_allocated(&accounts.button));
}

#[test]
fn create_at_wrong_address_is_refused() {
    let (payer, creator, admin) = (addr(1), addr(2), addr(3));
    let mut ledger = funded_ledger(&[payer, creator]);
    let mut accounts = create_accounts(&ledger, payer, creator, admin);
    accounts.button = addr(9);
    let r = create_button(&mut ledger, &accounts, String::new(), String::new(), String::new());
    assert_eq!(r, Err(TransitionError::ConstraintSeeds));
}

#[test]
fn like_increments_and_leaves_marker() {
    let (payer, creator, admin, user) = (addr(1), addr(2), addr(3), addr(4));
    let mut ledger = funded_ledger(&[payer, creator, user]);
    let accounts = create_accounts(&ledger, payer, creator, admin);
    create_button(&mut ledger, &accounts, String::new(), String::new(), String::new()).unwrap();
    let like = like_accounts(&ledger, user, creator);
    like_button(&mut ledger, &like).unwrap();
    assert_eq!(ledger.button(&like.button).unwrap().number_of_likes, 1);
    assert!(ledger.holds_like(&like.like));
    assert_eq!(ledger.balance(&user), START - rent(8));
    assert_eq!(ledger.balance(&like.like), rent(8));
}

#[test]
fn like_twice_collides() {
    let (payer, creator, admin, user) = (addr(1), addr(2), addr(3), addr(4));
    let mut ledger = funded_ledger(&[payer, creator, user]);
    let accounts = create_accounts(&ledger, payer, creator, admin);
    create_button(&mut ledger, &accounts, String::new(), String::new(), String::new()).unwrap();
    let like = like_accounts(&ledger, user, creator);
    like_button(&mut ledger, &like).unwrap();
    let r = like_button(&mut ledger, &like);
    assert_eq!(r, Err(TransitionError::AccountAlreadyInUse));
    assert_eq!(ledger.button(&like.button).unwrap().number_of_likes, 1);
}

#[test]
fn likes_from_distinct_users_all_count() {
    let (payer, creator, admin) = (addr(1), addr(2), addr(3));
    let users: Vec<Address> = (10..17).map(addr).collect();
    let mut all = vec![payer, creator];
    all.extend(users.iter().copied());
    let mut ledger = funded_ledger(&all);
    let accounts = create_accounts(&ledger, payer, creator, admin);
    create_button(&mut ledger, &accounts, String::new(), String::new(), String::new()).unwrap();
    for u in users.iter().rev() {
        let like = like_accounts(&ledger, *u, creator);
        like_button(&mut ledger, &like).unwrap();
    }
    assert_eq!(ledger.button(&accounts.button).unwrap().number_of_likes, users.len() as u64);
}

#[test]
fn like_without_button_fails() {
    let (creator, user) = (addr(2), addr(4));
    let mut ledger = funded_ledger(&[user]);
    let like = like_accounts(&ledger, user, creator);
    let r = like_button(&mut ledger, &like);
    assert_eq!(r, Err(TransitionError::AccountNotInitialized));
    assert!(!ledger.is_allocated(&like.like));
}

#[test]
fn like_at_wrong_marker_address_is_refused() {
    let (payer, creator, admin, user) = (addr(1), addr(2), addr(3), addr(4));
    let mut ledger = funded_ledger(&[payer, creator, user]);
    let accounts = create_accounts(&ledger, payer, creator, admin);
    create_button(&mut ledger, &accounts, String::new(), String::new(), String::new()).unwrap();
    let mut like = like_accounts(&ledger, user, creator);
    like.like = addr(9);
    assert_eq!(like_button(&mut ledger, &like), Err(TransitionError::ConstraintSeeds));
}

#[test]
fn like_counter_overflow_rolls_back() {
    let (payer, creator, admin, user) = (addr(1), addr(2), addr(3), addr(4));
    let mut ledger = funded_ledger(&[payer, creator, user]);
    let accounts = create_accounts(&ledger, payer, creator, admin);
    create_button(&mut ledger, &accounts, String::new(), String::new(), String::new()).unwrap();
    let full = Button {
        title: String::new(),
        color: String::new(),
        creator,
        sound_uri: String::new(),
        number_of_likes: u64::MAX,
    };
    ledger.set_record(&accounts.button, Record::Button(full));
    let like = like_accounts(&ledger, user, creator);
    let r = like_button(&mut ledger, &like);
    assert_eq!(r, Err(TransitionError::Program(ButtonProgramError::Overflow)));
    assert!(!ledger.is_allocated(&like.like));
    assert_eq!(ledger.balance(&user), START);
    assert_eq!(ledger.button(&accounts.button).unwrap().number_of_likes, u64::MAX);
}

#[test]
fn derived_addresses_match_find_program_address() {
    let pid = program_id();
    let creator = addr(2);
    let user = addr(4);
    let b = button_address(&pid, &creator).unwrap();
    let id = Pubkey::new_from_array(pid.bytes);
    let (expected, _) = Pubkey::find_program_address(&[b"button", creator.bytes.as_ref()], &id);
    assert_eq!(b.bytes, expected.to_bytes());
    assert_ne!(b, creator);
    let l = like_address(&pid, &b, &user).unwrap();
    let (expected_like, _) =
        Pubkey::find_program_address(&[b"like", b.bytes.as_ref(), user.bytes.as_ref()], &id);
    assert_eq!(l.bytes, expected_like.to_bytes());
    assert_ne!(l, like_address(&pid, &b, &addr(5)).unwrap());
}

#[test]
fn minimum_balance_formula() {
    let ledger = Ledger::new(program_id(), RENT_PER_BYTE);
    assert_eq!(ledger.minimum_balance(8), Some(946_560));
    assert_eq!(ledger.minimum_balance(u128::MAX), None);
    let free = Ledger::new(program_id(), 0);
    assert_eq!(free.minimum_balance(u128::MAX), Some(0));
}

#[test]
fn deposit_overflow_is_refused() {
    let a = addr(1);
    let mut ledger = funded_ledger(&[a]);
    assert_eq!(ledger.deposit(&a, u64::MAX), Err(TransitionError::ArithmeticOverflow));
    assert_eq!(ledger.balance(&a), START);
}

#[test]
fn like_paid_by_record_holder_is_refused() {
    let (payer, creator, admin, other) = (addr(1), addr(2), addr(3), addr(5));
    let mut ledger = funded_ledger(&[payer, creator, other]);
    let accounts = create_accounts(&ledger, payer, creator, admin);
    create_button(&mut ledger, &accounts, String::new(), String::new(), String::new()).unwrap();
    let others = create_accounts(&ledger, payer, other, admin);
    create_button(&mut ledger, &others, String::new(), String::new(), String::new()).unwrap();
    // The other button's record cannot pay a marker's rent.
    let like = like_accounts(&ledger, others.button, creator);
    assert_eq!(like_button(&mut ledger, &like), Err(TransitionError::NotSystemAccount));
    assert_eq!(ledger.button(&accounts.button).unwrap().number_of_likes, 0);
}

#[test]
fn rent_past_u64_is_refused() {
    let (payer, creator, admin) = (addr(1), addr(2), addr(3));
    let mut ledger = Ledger::new(program_id(), u64::MAX);
    ledger.deposit(&payer, START).unwrap();
    ledger.deposit(&creator, START).unwrap();
    let accounts = create_accounts(&ledger, payer, creator, admin);
    let r = create_button(&mut ledger, &accounts, String::new(), String::new(), String::new());
    assert_eq!(r, Err(TransitionError::ArithmeticOverflow));
    assert!(!ledger.is_allocated(&accounts.button));
}

#[test]
fn transfer_moves_and_refuses_overdraft() {
    let (a, b) = (addr(1), addr(2));
    let mut ledger = funded_ledger(&[a]);
    ledger.transfer(&a, &b, 500).unwrap();
    assert_eq!(ledger.balance(&a), START - 500);
    assert_eq!(ledger.balance(&b), 500);
    assert_eq!(ledger.transfer(&b, &a, 501), Err(TransitionError::InsufficientLamports));
    assert_eq!(ledger.balance(&b), 500);
    ledger.deposit(&a, u64::MAX - START + 500).unwrap();
    assert_eq!(ledger.transfer(&b, &a, 1), Err(TransitionError::ArithmeticOverflow));
    assert_eq!(ledger.balance(&b), 500);
}

#[test]
fn validation_and_counter_helpers() {
    assert_eq!(validate_inputs(&"a".repeat(25), &String::new(), &String::new()), Ok(()));
    assert_eq!(
        validate_inputs(&"a".repeat(26), &String::new(), &String::new()),
        Err(ButtonProgramError::InvalidInput)
    );
    assert_eq!(next_like_count(41), Ok(42));
    assert_eq!(next_like_count(u64::MAX), Err(ButtonProgramError::Overflow));
}

#[test]
fn create_twice_with_long_title_still_collides() {
    let (payer, creator, admin) = (addr(1), addr(2), addr(3));
    let mut ledger = funded_ledger(&[payer, creator]);
    let accounts = create_accounts(&ledger, payer, creator, admin);
    create_button(&mut ledger, &accounts, "first".to_string(), String::new(), String::new()).unwrap();
    let r = create_button(&mut ledger, &accounts, "a".repeat(26), String::new(), String::new());
    assert_eq!(r, Err(TransitionError::AccountAlreadyInUse));
    assert_eq!(ledger.button(&accounts.button).unwrap().title, "first");
}

#[test]
fn allocation_failure_comes_before_input_check() {
    let (payer, creator, admin) = (addr(1), addr(2), addr(3));
    let mut ledger = funded_ledger(&[creator]);
    let accounts = create_accounts(&ledger, payer, creator, admin);
    let r = create_button(&mut ledger, &accounts, "a".repeat(26), String::new(), String::new());
    assert_eq!(r, Err(TransitionError::InsufficientLamports));
}

#[test]
fn prefunded_button_address_is_topped_up() {
    let (payer, creator, admin) = (addr(1), addr(2), addr(3));
    let mut ledger = funded_ledger(&[payer, creator]);
    let accounts = create_accounts(&ledger, payer, creator, admin);
    ledger.deposit(&accounts.button, 1_000).unwrap();
    create_button(&mut ledger, &accounts, String::new(), String::new(), String::new()).unwrap();
    assert_eq!(ledger.balance(&accounts.button), rent(60));
    assert_eq!(ledger.balance(&payer), START - (rent(60) - 1_000));
    assert_eq!(ledger.button(&accounts.button).unwrap().number_of_likes, 0);
}

#[test]
fn prefunded_address_above_rent_keeps_its_balance() {
    let (payer, creator, admin, user) = (addr(1), addr(2), addr(3), addr(4));
    let mut ledger = funded_ledger(&[payer, creator, user]);
    let accounts = create_accounts(&ledger, payer, creator, admin);
    create_button(&mut ledger, &accounts, String::new(), String::new(), String::new()).unwrap();
    let like = like_accounts(&ledger, user, creator);
    ledger.deposit(&like.like, 5_000_000).unwrap();
    like_button(&mut ledger, &like).unwrap();
    assert_eq!(ledger.balance(&like.like), 5_000_000);
    assert_eq!(ledger.balance(&user), START);
    assert!(ledger.holds_like(&like.like));
}

#[test]
fn payer_as_prefunded_target_is_refused() {
    let (creator, admin) = (addr(2), addr(3));
    let mut ledger = funded_ledger(&[creator]);
    let mut accounts = create_accounts(&ledger, creator, creator, admin);
    ledger.deposit(&accounts.button, START).unwrap();
    accounts.fee_payer = accounts.button;
    let r = create_button(&mut ledger, &accounts, String::new(), String::new(), String::new());
    assert_eq!(r, Err(TransitionError::PayerIsTarget));
}

#[test]
fn fee_check_boundary() {
    assert_eq!(check_fee(20_000_000), Ok(()));
    assert_eq!(check_fee(19_999_999), Err(ButtonProgramError::InsufficientFunds));
}

#[test]
fn likes_in_either_order_leave_the_same_ledger() {
    let (payer, creator, admin) = (addr(1), addr(2), addr(3));
    let users: Vec<Address> = (20..25).map(addr).collect();
    let mut all = vec![payer, creator];
    all.extend(users.iter().copied());
    let mut forward = funded_ledger(&all);
    let mut backward = funded_ledger(&all);
    let accounts = create_accounts(&forward, payer, creator, admin);
    create_button(&mut forward, &accounts, String::new(), String::new(), String::new()).unwrap();
    create_button(&mut backward, &accounts, String::new(), String::new(), String::new()).unwrap();
    for u in users.iter() {
        let like = like_accounts(&forward, *u, creator);
        like_button(&mut forward, &like).unwrap();
    }
    for u in users.iter().rev() {
        let like = like_accounts(&backward, *u, creator);
        like_button(&mut backward, &like).unwrap();
    }
    assert_eq!(forward.button(&accounts.button).unwrap().number_of_likes, 5);
    assert_eq!(backward.button(&accounts.button).unwrap().number_of_likes, 5);
    for u in users.iter() {
        let like = like_accounts(&forward, *u, creator);
        assert!(forward.holds_like(&like.like));
        assert!(backward.holds_like(&like.like));
        assert_eq!(forward.balance(u), backward.balance(u));
        assert_eq!(forward.balance(u), START - rent(8));
    }
}
