use crate::address::{button_seeds, derived_address, like_seeds};
use crate::constants::BUTTON_FEE;
use crate::error::{ButtonProgramError, TransitionError};
use crate::instructions::create_button::{create_button_transition, CreateButton};
use crate::instructions::like_button::{like_button_transition, LikeButton};
use crate::model::{allocate, like_button_at, minimum_balance, top_up, LedgerModel};
use crate::state::{
    byte_len,
    inputs_valid,
    new_button,
    AccountView,
    RecordView,
    LIKE_SPACE,
    MAX_TITLE_LEN,
};
use vstd::prelude::*;

verus! {

/// A button that CreateButton stored reads back with the title, color,
/// creator and sound URI it was given, and no likes.
pub proof fn lemma_create_then_read(
    m: LedgerModel,
    accounts: CreateButton,
    title: Seq<char>,
    color: Seq<char>,
    sound_uri: Seq<char>,
)
    requires
        create_button_transition(m, accounts, title, color, sound_uri) is Ok,
    ensures
        ({
            let m2 = create_button_transition(m, accounts, title, color, sound_uri)->Ok_0;
            &&& m2.holds_button(accounts.button@)
            &&& m2.button_at(accounts.button@) == new_button(
                title,
                color,
                accounts.creator@,
                sound_uri,
            )
            &&& m2.button_at(accounts.button@).number_of_likes == 0
        }),
{
}

/// CreateButton with a title longer than its bound fails, and so changes
/// nothing; where the record could be allocated, it fails with
/// `InvalidInput`.
pub proof fn lemma_create_long_title(
    m: LedgerModel,
    accounts: CreateButton,
    title: Seq<char>,
    color: Seq<char>,
    sound_uri: Seq<char>,
)
    requires
        byte_len(title) > MAX_TITLE_LEN,
    ensures
        create_button_transition(m, accounts, title, color, sound_uri) is Err,
        derived_address(button_seeds(accounts.creator@), m.program_id) == Some(accounts.button@)
            && allocate(
            m,
            accounts.fee_payer@,
            accounts.button@,
            new_button(title, color, accounts.creator@, sound_uri).space(),
            RecordView::Button(new_button(title, color, accounts.creator@, sound_uri)),
        ) is Ok ==> create_button_transition(m, accounts, title, color, sound_uri) == Err::<
            LedgerModel,
            TransitionError,
        >(TransitionError::Program(ButtonProgramError::InvalidInput)),
{
}

/// CreateButton at the derived address succeeds where no record is stored
/// there, the strings are within their bounds, the payer's plain account
/// covers the rent, the creator's plain account still holds the fee after
/// that, and the fee destination has room for the fee; the record then reads
/// back with the values it was given and no likes.
pub proof fn lemma_create_succeeds(
    m: LedgerModel,
    accounts: CreateButton,
    title: Seq<char>,
    color: Seq<char>,
    sound_uri: Seq<char>,
)
    requires
        derived_address(button_seeds(accounts.creator@), m.program_id) == Some(accounts.button@),
        inputs_valid(title, color, sound_uri),
        !m.accounts.contains_key(accounts.button@) || m.accounts[accounts.button@].record is Wallet,
        minimum_balance(
            new_button(title, color, accounts.creator@, sound_uri).space(),
            m.rent_per_byte,
        ) <= u64::MAX,
        accounts.fee_payer@ != accounts.button@,
        accounts.creator@ != accounts.button@,
        accounts.admin_wallet@ != accounts.button@,
        m.accounts.contains_key(accounts.fee_payer@),
        m.accounts[accounts.fee_payer@].record is Wallet,
        m.balance(accounts.fee_payer@) >= top_up(
            minimum_balance(
                new_button(title, color, accounts.creator@, sound_uri).space(),
                m.rent_per_byte,
            ),
            m.balance(accounts.button@),
        ),
        m.accounts.contains_key(accounts.creator@),
        m.accounts[accounts.creator@].record is Wallet,
        m.balance(accounts.creator@) >= BUTTON_FEE + if accounts.creator@ == accounts.fee_payer@ {
            top_up(
                minimum_balance(
                    new_button(title, color, accounts.creator@, sound_uri).space(),
                    m.rent_per_byte,
                ),
                m.balance(accounts.button@),
            )
        } else {
            0
        },
        m.balance(accounts.admin_wallet@) + BUTTON_FEE <= u64::MAX,
    ensures
        create_button_transition(m, accounts, title, color, sound_uri) is Ok,
        ({
            let m2 = create_button_transition(m, accounts, title, color, sound_uri)->Ok_0;
            &&& m2.holds_button(accounts.button@)
            &&& m2.button_at(accounts.button@) == new_button(
                title,
                color,
                accounts.creator@,
                sound_uri,
            )
            &&& m2.button_at(accounts.button@).number_of_likes == 0
        }),
{
}

/// After CreateButton succeeded for a creator, a second CreateButton for
/// the same creator, whatever its strings, fails on the occupied address,
/// and so leaves the first record as it is.
pub proof fn lemma_create_twice(
    m: LedgerModel,
    first: CreateButton,
    second: CreateButton,
    title: Seq<char>,
    color: Seq<char>,
    sound_uri: Seq<char>,
    title2: Seq<char>,
    color2: Seq<char>,
    sound_uri2: Seq<char>,
)
    requires
        create_button_transition(m, first, title, color, sound_uri) is Ok,
        second.creator@ == first.creator@,
        second.button@ == first.button@,
    ensures
        create_button_transition(
            create_button_transition(m, first, title, color, sound_uri)->Ok_0,
            second,
            title2,
            color2,
            sound_uri2,
        ) == Err::<LedgerModel, TransitionError>(TransitionError::AccountAlreadyInUse),
{
}

/// CreateButton fails with `InsufficientFunds` where the creator holds
/// less than the fee, once the record could be allocated: the strings are
/// within their bounds, the address is free and the payer covers the rent.
pub proof fn lemma_create_insufficient_funds(
    m: LedgerModel,
    accounts: CreateButton,
    title: Seq<char>,
    color: Seq<char>,
    sound_uri: Seq<char>,
)
    requires
        derived_address(button_seeds(accounts.creator@), m.program_id) == Some(accounts.button@),
        inputs_valid(title, color, sound_uri),
        accounts.creator@ != accounts.button@,
        allocate(
            m,
            accounts.fee_payer@,
            accounts.button@,
            new_button(title, color, accounts.creator@, sound_uri).space(),
            RecordView::Button(new_button(title, color, accounts.creator@, sound_uri)),
        ) is Ok,
        m.balance(accounts.creator@) < BUTTON_FEE,
    ensures
        create_button_transition(m, accounts, title, color, sound_uri) == Err::<
            LedgerModel,
            TransitionError,
        >(TransitionError::Program(ButtonProgramError::InsufficientFunds)),
{
}

/// A LikeButton that succeeds adds one to the button's counter and stores
/// a Like marker at the address derived from the button and the user.
pub proof fn lemma_like_counts(m: LedgerModel, accounts: LikeButton)
    requires
        like_button_transition(m, accounts) is Ok,
    ensures
        ({
            let m2 = like_button_transition(m, accounts)->Ok_0;
            &&& m.holds_button(accounts.button@)
            &&& m2.holds_button(accounts.button@)
            &&& m2.button_at(accounts.button@).number_of_likes == m.button_at(
                accounts.button@,
            ).number_of_likes + 1
            &&& derived_address(like_seeds(accounts.button@, accounts.user@), m.program_id)
                == Some(accounts.like@)
            &&& m2.holds_like(accounts.like@)
        }),
{
}

/// LikeButton on an existing button succeeds exactly when no record is
/// stored at the marker's address, the user's plain account (not that
/// address, where it holds base units) covers the top-up to the marker's
/// rent, and the counter is below its maximum.
pub proof fn lemma_like_succeeds(m: LedgerModel, button: Seq<u8>, like: Seq<u8>, user: Seq<u8>)
    requires
        m.holds_button(button),
    ensures
        (like_button_at(m, button, like, user) is Ok) <==> {
            let rent = minimum_balance(LIKE_SPACE as nat, m.rent_per_byte);
            &&& !m.accounts.contains_key(like) || m.accounts[like].record is Wallet
            &&& rent <= u64::MAX
            &&& m.balance(like) != 0 ==> user != like
            &&& m.accounts.contains_key(user)
            &&& m.accounts[user].record is Wallet
            &&& m.accounts[user].lamports >= top_up(rent, m.balance(like))
            &&& m.button_at(button).number_of_likes < u64::MAX
        },
{
}

/// A second LikeButton by the same user on the same button fails on the
/// occupied marker address, and so leaves the counter as it is.
pub proof fn lemma_like_twice(m: LedgerModel, accounts: LikeButton)
    requires
        like_button_transition(m, accounts) is Ok,
    ensures
        like_button_transition(like_button_transition(m, accounts)->Ok_0, accounts) == Err::<
            LedgerModel,
            TransitionError,
        >(TransitionError::AccountAlreadyInUse),
{
}

/// LikeButton on the button at `button` by each of `users` in turn, the
/// i-th user's marker going to `likes[i]`; the first failure stops the run.
pub open spec fn likes_in_turn(
    m: LedgerModel,
    button: Seq<u8>,
    likes: Seq<Seq<u8>>,
    users: Seq<Seq<u8>>,
) -> Result<LedgerModel, TransitionError>
    decreases users.len(),
{
    if users.len() == 0 || likes.len() != users.len() {
        Ok(m)
    } else {
        match likes_in_turn(m, button, likes.drop_last(), users.drop_last()) {
            Ok(m1) => like_button_at(m1, button, likes.last(), users.last()),
            Err(e) => Err(e),
        }
    }
}

/// What a run of likes must find for every one of them to succeed: a
/// button whose counter has room for them, distinct users whose plain
/// accounts each cover a marker's rent, and distinct free marker addresses.
pub open spec fn likes_can_run(
    m: LedgerModel,
    button: Seq<u8>,
    likes: Seq<Seq<u8>>,
    users: Seq<Seq<u8>>,
) -> bool {
    let rent = minimum_balance(LIKE_SPACE as nat, m.rent_per_byte);
    &&& likes.len() == users.len()
    &&& m.holds_button(button)
    &&& m.button_at(button).number_of_likes + users.len() <= u64::MAX
    &&& rent <= u64::MAX
    &&& forall|i: int, j: int| 0 <= i < j < users.len() ==> users[i] != users[j]
    &&& forall|i: int, j: int| 0 <= i < j < likes.len() ==> likes[i] != likes[j]
    &&& forall|i: int| 0 <= i < likes.len() ==> !m.accounts.contains_key(#[trigger] likes[i])
    &&& forall|i: int|
        0 <= i < users.len() ==> {
            &&& m.accounts.contains_key(#[trigger] users[i])
            &&& m.accounts[users[i]].record is Wallet
            &&& m.accounts[users[i]].lamports >= rent
        }
}

proof fn lemma_likes_prefix(
    m: LedgerModel,
    button: Seq<u8>,
    likes: Seq<Seq<u8>>,
    users: Seq<Seq<u8>>,
    n: int,
)
    requires
        likes_can_run(m, button, likes, users),
        0 <= n <= users.len(),
    ensures
        ({
            let r = likes_in_turn(m, button, likes.subrange(0, n), users.subrange(0, n));
            &&& r is Ok
            &&& r->Ok_0.rent_per_byte == m.rent_per_byte
            &&& r->Ok_0.holds_button(button)
            &&& r->Ok_0.button_at(button).number_of_likes == m.button_at(button).number_of_likes
                + n
            &&& forall|j: int| n <= j < likes.len() ==> !r->Ok_0.accounts.contains_key(#[trigger] likes[j])
            &&& forall|j: int|
                n <= j < users.len() ==> r->Ok_0.accounts.contains_key(#[trigger] users[j])
                    && r->Ok_0.accounts[users[j]] == m.accounts[users[j]]
        }),
    decreases n,
{
    let ls = likes.subrange(0, n);
    let us = users.subrange(0, n);
    if n == 0 {
        assert(us.len() == 0);
    } else {
        lemma_likes_prefix(m, button, likes, users, n - 1);
        assert(ls.drop_last() =~= likes.subrange(0, n - 1));
        assert(us.drop_last() =~= users.subrange(0, n - 1));
        assert(ls.last() == likes[n - 1]);
        assert(us.last() == users[n - 1]);
        let m1 = likes_in_turn(m, button, likes.subrange(0, n - 1), users.subrange(0, n - 1))->Ok_0;
        assert(m1.accounts.contains_key(users[n - 1]));
        assert(!m1.accounts.contains_key(likes[n - 1]));
        assert forall|j: int| n <= j < users.len() implies likes[n - 1] != #[trigger] users[j] by {
            assert(m1.accounts.contains_key(users[j]));
        }
        assert forall|j: int| n <= j < users.len() implies users[n - 1] != #[trigger] users[j] by {
            assert(users[n - 1] != users[j]);
        }
        assert forall|j: int| n <= j < likes.len() implies likes[n - 1] != #[trigger] likes[j] by {
            assert(likes[n - 1] != likes[j]);
        }
        assert forall|j: int| n <= j < likes.len() implies users[n - 1] != #[trigger] likes[j] by {
            assert(!m1.accounts.contains_key(likes[j]));
        }
    }
}

/// Likes by distinct users on one button each count once, whatever their
/// order: where every like of the run can succeed (a condition that does
/// not depend on the order), all succeed, each marker address holds a Like
/// marker, and the counter ends up raised by the number of users.
pub proof fn lemma_distinct_likes_all_count(
    m: LedgerModel,
    button: Seq<u8>,
    likes: Seq<Seq<u8>>,
    users: Seq<Seq<u8>>,
)
    requires
        likes_can_run(m, button, likes, users),
    ensures
        likes_in_turn(m, button, likes, users) is Ok,
        likes_in_turn(m, button, likes, users)->Ok_0.button_at(button).number_of_likes == m.button_at(
            button,
        ).number_of_likes + users.len(),
        forall|i: int|
            0 <= i < likes.len() ==> likes_in_turn(m, button, likes, users)->Ok_0.holds_like(
                #[trigger] likes[i],
            ),
{
    lemma_likes_prefix(m, button, likes, users, users.len() as int);
    lemma_likes_closed_form(m, button, likes, users, users.len() as int);
    assert forall|i: int| 0 <= i < likes.len() implies #[trigger] likes.contains(likes[i]) by {}
    assert(likes.subrange(0, likes.len() as int) =~= likes);
    assert(users.subrange(0, users.len() as int) =~= users);
}

/// The ledger after every like of a run succeeded: each marker address holds
/// a Like marker funded with the rent, each user has paid the rent, and the
/// button's counter has risen by the number of users.
pub open spec fn after_likes(
    m: LedgerModel,
    button: Seq<u8>,
    likes: Seq<Seq<u8>>,
    users: Seq<Seq<u8>>,
) -> LedgerModel {
    let rent = minimum_balance(LIKE_SPACE as nat, m.rent_per_byte);
    LedgerModel {
        program_id: m.program_id,
        rent_per_byte: m.rent_per_byte,
        accounts: Map::new(
            |k: Seq<u8>| m.accounts.contains_key(k) || likes.contains(k),
            |k: Seq<u8>|
                if likes.contains(k) {
                    AccountView { lamports: rent as u64, record: RecordView::Like }
                } else if users.contains(k) {
                    AccountView {
                        lamports: (m.accounts[k].lamports - rent) as u64,
                        record: RecordView::Wallet,
                    }
                } else if k == button {
                    AccountView {
                        lamports: m.accounts[k].lamports,
                        record: RecordView::Button(
                            m.button_at(button).with_count(
                                (m.button_at(button).number_of_likes + users.len()) as u64,
                            ),
                        ),
                    }
                } else {
                    m.accounts[k]
                },
        ),
    }
}

proof fn lemma_likes_closed_form(
    m: LedgerModel,
    button: Seq<u8>,
    likes: Seq<Seq<u8>>,
    users: Seq<Seq<u8>>,
    n: int,
)
    requires
        likes_can_run(m, button, likes, users),
        0 <= n <= users.len(),
    ensures
        likes_in_turn(m, button, likes.subrange(0, n), users.subrange(0, n))->Ok_0 == after_likes(
            m,
            button,
            likes.subrange(0, n),
            users.subrange(0, n),
        ),
    decreases n,
{
    let ls = likes.subrange(0, n);
    let us = users.subrange(0, n);
    lemma_likes_prefix(m, button, likes, users, n);
    let target = after_likes(m, button, ls, us);
    let r = likes_in_turn(m, button, ls, us)->Ok_0;
    if n == 0 {
        assert(us.len() == 0);
        assert forall|k: Seq<u8>| !ls.contains(k) && !us.contains(k) by {}
        assert(m.button_at(button).with_count(m.button_at(button).number_of_likes) == m.button_at(
            button,
        ));
        assert(r.accounts =~= target.accounts);
    } else {
        lemma_likes_closed_form(m, button, likes, users, n - 1);
        lemma_likes_prefix(m, button, likes, users, n - 1);
        let lp = likes.subrange(0, n - 1);
        let up = users.subrange(0, n - 1);
        assert(ls.drop_last() =~= lp);
        assert(us.drop_last() =~= up);
        let l = likes[n - 1];
        let u = users[n - 1];
        assert(ls.last() == l);
        assert(us.last() == u);
        let m1 = likes_in_turn(m, button, lp, up)->Ok_0;
        assert forall|k: Seq<u8>| #[trigger] ls.contains(k) <==> (lp.contains(k) || k == l) by {
            if ls.contains(k) {
                let i = choose|i: int| 0 <= i < ls.len() && ls[i] == k;
                if i < n - 1 {
                    assert(lp[i] == k);
                }
            }
            if lp.contains(k) {
                let i = choose|i: int| 0 <= i < lp.len() && lp[i] == k;
                assert(ls[i] == k);
            }
            if k == l {
                assert(ls[n - 1] == k);
            }
        }
        assert forall|k: Seq<u8>| #[trigger] us.contains(k) <==> (up.contains(k) || k == u) by {
            if us.contains(k) {
                let i = choose|i: int| 0 <= i < us.len() && us[i] == k;
                if i < n - 1 {
                    assert(up[i] == k);
                }
            }
            if up.contains(k) {
                let i = choose|i: int| 0 <= i < up.len() && up[i] == k;
                assert(us[i] == k);
            }
            if k == u {
                assert(us[n - 1] == k);
            }
        }
        assert forall|k: Seq<u8>| #[trigger] ls.contains(k) ==> !m.accounts.contains_key(k) by {
            if ls.contains(k) {
                let i = choose|i: int| 0 <= i < ls.len() && ls[i] == k;
                assert(likes[i] == k);
            }
        }
        assert forall|k: Seq<u8>| #[trigger] us.contains(k) ==> m.accounts.contains_key(k)
            && m.accounts[k].record is Wallet by {
            if us.contains(k) {
                let i = choose|i: int| 0 <= i < us.len() && us[i] == k;
                assert(users[i] == k);
            }
        }
        assert(!up.contains(u)) by {
            if up.contains(u) {
                let i = choose|i: int| 0 <= i < up.len() && up[i] == u;
                assert(users[i] == users[n - 1]);
            }
        }
        assert(!lp.contains(l)) by {
            if lp.contains(l) {
                let i = choose|i: int| 0 <= i < lp.len() && lp[i] == l;
                assert(likes[i] == likes[n - 1]);
            }
        }
        assert(m.accounts.contains_key(u));
        assert(!m.accounts.contains_key(l));
        assert(m1.accounts.contains_key(u) && m1.accounts[u] == m.accounts[u]);
        assert(r.accounts =~= target.accounts);
    }
}

/// Likes by distinct users on one button leave the same ledger whatever
/// their order: two runs over the same users and the same marker
/// addresses, where every like can succeed, end in equal ledgers.
pub proof fn lemma_likes_order_free(
    m: LedgerModel,
    button: Seq<u8>,
    likes: Seq<Seq<u8>>,
    users: Seq<Seq<u8>>,
    likes2: Seq<Seq<u8>>,
    users2: Seq<Seq<u8>>,
)
    requires
        likes_can_run(m, button, likes, users),
        likes_can_run(m, button, likes2, users2),
        users2.len() == users.len(),
        likes.to_set() == likes2.to_set(),
        users.to_set() == users2.to_set(),
    ensures
        likes_in_turn(m, button, likes, users) is Ok,
        likes_in_turn(m, button, likes, users) == likes_in_turn(m, button, likes2, users2),
{
    lemma_likes_prefix(m, button, likes, users, users.len() as int);
    lemma_likes_prefix(m, button, likes2, users2, users2.len() as int);
    lemma_likes_closed_form(m, button, likes, users, users.len() as int);
    lemma_likes_closed_form(m, button, likes2, users2, users2.len() as int);
    assert(likes.subrange(0, likes.len() as int) =~= likes);
    assert(users.subrange(0, users.len() as int) =~= users);
    assert(likes2.subrange(0, likes2.len() as int) =~= likes2);
    assert(users2.subrange(0, users2.len() as int) =~= users2);
    assert forall|k: Seq<u8>| #[trigger] likes.contains(k) == likes2.contains(k) by {
        assert(likes.to_set().contains(k) == likes.contains(k));
        assert(likes2.to_set().contains(k) == likes2.contains(k));
    }
    assert forall|k: Seq<u8>| #[trigger] users.contains(k) == users2.contains(k) by {
        assert(users.to_set().contains(k) == users.contains(k));
        assert(users2.to_set().contains(k) == users2.contains(k));
    }
    assert(after_likes(m, button, likes, users).accounts =~= after_likes(
        m,
        button,
        likes2,
        users2,
    ).accounts);
}

} // verus!
