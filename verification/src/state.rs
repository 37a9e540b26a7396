//! The store as mathematics: what it holds, what each operation does to it,
//! and what is true of every store that the operations can reach.

use vstd::prelude::*;
use crate::account_type::{encode, lemma_encode_decode, AccountType};
use crate::error::StoreErrorView;
use crate::records::{
    decoded, decoding, is_corrupt, is_owned_by, listing, owned_by, row_is_valid, AccountRowView,
    AccountView, UserSummaryView, UserView,
};

verus! {

/// The first identifier that the account sequence hands out.
pub const FIRST_ACCOUNT_ID: u64 = 1;

/// The value at which the account sequence stops: it is never handed out.
pub const ACCOUNT_ID_LIMIT: u64 = 0xffff_ffff_ffff_ffff;

/// What a store holds.
pub struct StoreState {
    /// The name of each registered user, by user identifier.
    pub users: Map<Seq<char>, Seq<char>>,
    /// The account rows, in the order in which they were created.
    pub accounts: Seq<AccountRowView>,
    /// The identifier that the next account will get.
    pub next_account_id: nat,
}

/// A change that a caller can ask of the store.
pub enum Operation {
    /// Register a user.
    AddUser(UserView),
    /// Open an account of a kind for the user with an identifier.
    CreateAccount(Seq<char>, AccountType),
}

impl StoreState {
    /// The store that holds nothing yet and whose account sequence stands at
    /// `first_account_id`.
    pub open spec fn starting_at(first_account_id: nat) -> StoreState {
        StoreState { users: Map::empty(), accounts: Seq::empty(), next_account_id: first_account_id }
    }

    /// The store that holds nothing yet, with the account sequence at its
    /// first identifier.
    pub open spec fn empty() -> StoreState {
        StoreState::starting_at(FIRST_ACCOUNT_ID as nat)
    }

    /// Whether a user is registered under `user_id`.
    pub open spec fn has_user(self, user_id: Seq<char>) -> bool {
        self.users.contains_key(user_id)
    }

    /// Whether the account sequence has no identifier left.
    pub open spec fn sequence_exhausted(self) -> bool {
        self.next_account_id >= ACCOUNT_ID_LIMIT
    }

    /// What must hold of one stored row: its owner is registered, its
    /// identifier came from the sequence, its kind can be read, and its
    /// balance is still the opening balance.
    pub open spec fn row_ok(self, row: AccountRowView) -> bool {
        &&& self.has_user(row.user_id)
        &&& FIRST_ACCOUNT_ID <= row.account_id < self.next_account_id
        &&& row_is_valid(row)
        &&& row.balance == 0
    }

    /// The consistency rules of the store: every row is sound, and account
    /// identifiers grow with the order of creation, so none occurs twice.
    pub open spec fn wf(self) -> bool {
        &&& FIRST_ACCOUNT_ID <= self.next_account_id <= ACCOUNT_ID_LIMIT
        &&& forall|i: int| 0 <= i < self.accounts.len() ==> self.row_ok(#[trigger] self.accounts[i])
        &&& forall|i: int, j: int|
            0 <= i < j < self.accounts.len() ==> (#[trigger] self.accounts[i]).account_id < (
            #[trigger] self.accounts[j]).account_id
    }

    /// The number of rows that registering `user` writes: one for a fresh
    /// identifier, none for one that is taken.
    pub open spec fn rows_affected(self, user: UserView) -> nat {
        if self.has_user(user.user_id) {
            0
        } else {
            1
        }
    }

    /// The store after registering `user`. A taken identifier leaves the
    /// store as it is: the earlier registration stands.
    pub open spec fn add_user(self, user: UserView) -> StoreState {
        if self.has_user(user.user_id) {
            self
        } else {
            StoreState { users: self.users.insert(user.user_id, user.name), ..self }
        }
    }

    /// How opening an account for `user_id` ends: it is refused for an
    /// unregistered owner, and fails once the sequence is exhausted.
    pub open spec fn create_account_outcome(self, user_id: Seq<char>) -> Result<
        (),
        StoreErrorView,
    > {
        if !self.has_user(user_id) {
            Err(StoreErrorView::NotFound)
        } else if self.sequence_exhausted() {
            Err(StoreErrorView::EngineError)
        } else {
            Ok(())
        }
    }

    /// The row that the next account of `user_id` gets.
    pub open spec fn new_row(self, user_id: Seq<char>, kind: AccountType) -> AccountRowView {
        AccountRowView {
            account_id: self.next_account_id,
            user_id,
            account_type: encode(kind),
            balance: 0,
        }
    }

    /// The store after opening an account of `kind` for `user_id`. Where the
    /// request does not succeed, the store stays as it is.
    pub open spec fn create_account(self, user_id: Seq<char>, kind: AccountType) -> StoreState {
        if self.create_account_outcome(user_id).is_ok() {
            StoreState {
                accounts: self.accounts.push(self.new_row(user_id, kind)),
                next_account_id: self.next_account_id + 1,
                ..self
            }
        } else {
            self
        }
    }

    /// What looking up `user_id` gives: the user and every account of that
    /// user, or why not.
    pub open spec fn lookup(self, user_id: Seq<char>) -> Result<UserSummaryView, StoreErrorView> {
        if !self.has_user(user_id) {
            Err(StoreErrorView::NotFound)
        } else {
            match listing(self.accounts, user_id) {
                Ok(accounts) => Ok(
                    UserSummaryView {
                        user: UserView { user_id, name: self.users[user_id] },
                        accounts,
                    },
                ),
                Err(e) => Err(e),
            }
        }
    }

    /// The store after one operation.
    pub open spec fn apply(self, op: Operation) -> StoreState {
        match op {
            Operation::AddUser(user) => self.add_user(user),
            Operation::CreateAccount(user_id, kind) => self.create_account(user_id, kind),
        }
    }

    /// The store after a run of operations, first to last.
    pub open spec fn replay(self, ops: Seq<Operation>) -> StoreState
        decreases ops.len(),
    {
        if ops.len() == 0 {
            self
        } else {
            self.replay(ops.drop_last()).apply(ops.last())
        }
    }

    /// The store after opening one account of each of `kinds`, in turn, for
    /// `user_id`.
    pub open spec fn create_accounts(self, user_id: Seq<char>, kinds: Seq<AccountType>) -> StoreState
        decreases kinds.len(),
    {
        if kinds.len() == 0 {
            self
        } else {
            self.create_accounts(user_id, kinds.drop_last()).create_account(user_id, kinds.last())
        }
    }
}

/// Whether `op` registers a user under `user_id`.
pub open spec fn registers(op: Operation, user_id: Seq<char>) -> bool {
    op matches Operation::AddUser(user) && user.user_id == user_id
}

/// The accounts that opening one of each of `kinds` for `user_id` adds, when
/// the sequence stands at `first_id`.
pub open spec fn opened(first_id: nat, user_id: Seq<char>, kinds: Seq<AccountType>) -> Seq<
    AccountView,
> {
    Seq::new(
        kinds.len(),
        |k: int|
            AccountView {
                account_id: (first_id + k) as nat,
                user_id,
                account_type: kinds[k],
                balance: 0,
            },
    )
}

/// A store that holds nothing is consistent wherever its account sequence
/// stands within the range of identifiers, and nobody is registered in it.
pub proof fn lemma_empty_wf(first_account_id: nat)
    requires
        FIRST_ACCOUNT_ID <= first_account_id <= ACCOUNT_ID_LIMIT,
    ensures
        StoreState::starting_at(first_account_id).wf(),
        StoreState::empty().wf(),
        forall|user_id: Seq<char>| !StoreState::starting_at(first_account_id).has_user(user_id),
{
}

/// Registering keeps the store consistent.
pub proof fn lemma_add_user_wf(s: StoreState, user: UserView)
    requires
        s.wf(),
    ensures
        s.add_user(user).wf(),
{
}

/// Opening an account keeps the store consistent. The new account gets an
/// identifier that no earlier account has, and its owner is registered.
pub proof fn lemma_create_account_wf(s: StoreState, user_id: Seq<char>, kind: AccountType)
    requires
        s.wf(),
    ensures
        s.create_account(user_id, kind).wf(),
{
    if s.create_account_outcome(user_id).is_ok() {
        lemma_encode_decode(kind);
    }
}

/// Every store that operations reach from a consistent store is consistent:
/// no account without a registered owner, no account identifier used twice.
pub proof fn lemma_replay_wf(s: StoreState, ops: Seq<Operation>)
    requires
        s.wf(),
    ensures
        s.replay(ops).wf(),
    decreases ops.len(),
{
    if ops.len() > 0 {
        lemma_replay_wf(s, ops.drop_last());
        let before = s.replay(ops.drop_last());
        match ops.last() {
            Operation::AddUser(user) => lemma_add_user_wf(before, user),
            Operation::CreateAccount(user_id, kind) => lemma_create_account_wf(
                before,
                user_id,
                kind,
            ),
        }
    }
}

/// Nothing that the store holds is ever changed or removed: whatever is done
/// to it, each registered user stays registered under the same name, the
/// account rows stay as they were and in their places, ahead of every later
/// row, and the account sequence never steps back.
pub proof fn lemma_records_are_kept(s: StoreState, ops: Seq<Operation>)
    ensures
        forall|user_id: Seq<char>| #[trigger]
            s.has_user(user_id) ==> s.replay(ops).has_user(user_id) && s.replay(
                ops,
            ).users[user_id] == s.users[user_id],
        s.accounts.len() <= s.replay(ops).accounts.len(),
        s.replay(ops).accounts.take(s.accounts.len() as int) == s.accounts,
        s.next_account_id <= s.replay(ops).next_account_id,
    decreases ops.len(),
{
    if ops.len() > 0 {
        lemma_records_are_kept(s, ops.drop_last());
        assert(s.replay(ops) == s.replay(ops.drop_last()).apply(ops.last()));
    }
}

/// In a consistent store every listing succeeds: no stored kind is
/// unreadable.
pub proof fn lemma_listing_succeeds(s: StoreState, user_id: Seq<char>)
    requires
        s.wf(),
    ensures
        listing(s.accounts, user_id) == Ok::<Seq<AccountView>, StoreErrorView>(
            owned_by(s.accounts, user_id).map_values(decoding()),
        ),
{
    broadcast use vstd::seq_lib::group_filter_ensures;

    let owned = owned_by(s.accounts, user_id);
    let corrupt = owned.filter(is_corrupt());
    if corrupt.len() > 0 {
        let bad = corrupt[0];
        owned.lemma_filter_contains_rev(is_corrupt(), bad);
        s.accounts.lemma_filter_contains_rev(is_owned_by(user_id), bad);
    }
}

/// Whether the account identifiers of `accounts` grow from each to the next.
pub open spec fn ids_increase(accounts: Seq<AccountView>) -> bool {
    forall|i: int, j: int|
        0 <= i < j < accounts.len() ==> (#[trigger] accounts[i]).account_id < (
        #[trigger] accounts[j]).account_id
}

/// A user registered under a fresh identifier is found again, under the same
/// identifier and name, and owns no account yet.
pub proof fn lemma_registered_user_is_found(s: StoreState, user: UserView)
    requires
        s.wf(),
        !s.has_user(user.user_id),
    ensures
        s.rows_affected(user) == 1,
        s.add_user(user).lookup(user.user_id) == Ok::<UserSummaryView, StoreErrorView>(
            UserSummaryView { user, accounts: Seq::empty() },
        ),
{
    broadcast use vstd::seq_lib::group_filter_ensures;

    let after = s.add_user(user);
    lemma_add_user_wf(s, user);
    lemma_listing_succeeds(after, user.user_id);
    let owned = owned_by(after.accounts, user.user_id);
    if owned.len() > 0 {
        let row = owned[0];
        s.accounts.lemma_filter_contains_rev(is_owned_by(user.user_id), row);
    }
    assert(owned.map_values(decoding()) =~= Seq::<AccountView>::empty());
}

/// Registering again under an identifier that was just registered writes no
/// row and changes nothing: the first name stays.
pub proof fn lemma_second_registration_is_ignored(s: StoreState, first: UserView, second: UserView)
    requires
        first.user_id == second.user_id,
    ensures
        s.add_user(first).rows_affected(second) == 0,
        s.add_user(first).add_user(second) == s.add_user(first),
        s.add_user(first).add_user(second).lookup(first.user_id) == s.add_user(first).lookup(
            first.user_id,
        ),
        !s.has_user(first.user_id) ==> s.add_user(first).add_user(second).users[first.user_id]
            == first.name,
{
}

/// Looking up a user is refused as not found exactly when nobody is
/// registered under the identifier.
pub proof fn lemma_not_found_iff_unregistered(s: StoreState, user_id: Seq<char>)
    ensures
        s.lookup(user_id) == Err::<UserSummaryView, StoreErrorView>(StoreErrorView::NotFound)
            <==> !s.has_user(user_id),
{
}

/// An identifier that no operation ever registered is not found, whatever
/// else was done to the store.
pub proof fn lemma_never_registered_is_not_found(
    s: StoreState,
    ops: Seq<Operation>,
    user_id: Seq<char>,
)
    requires
        !s.has_user(user_id),
        forall|i: int| 0 <= i < ops.len() ==> !registers(#[trigger] ops[i], user_id),
    ensures
        !s.replay(ops).has_user(user_id),
        s.replay(ops).lookup(user_id) == Err::<UserSummaryView, StoreErrorView>(
            StoreErrorView::NotFound,
        ),
    decreases ops.len(),
{
    if ops.len() > 0 {
        let earlier = ops.drop_last();
        lemma_never_registered_is_not_found(s, earlier, user_id);
    }
}

/// The rows of one owner keep the order of the rows they were picked from,
/// and each of them is one of those rows.
proof fn lemma_owned_rows(rows: Seq<AccountRowView>, user_id: Seq<char>)
    requires
        forall|i: int, j: int|
            0 <= i < j < rows.len() ==> (#[trigger] rows[i]).account_id < (
            #[trigger] rows[j]).account_id,
    ensures
        forall|k: int|
            0 <= k < owned_by(rows, user_id).len() ==> rows.contains(
                #[trigger] owned_by(rows, user_id)[k],
            ),
        forall|k: int, l: int|
            0 <= k < l < owned_by(rows, user_id).len() ==> (#[trigger] owned_by(
                rows,
                user_id,
            )[k]).account_id < (#[trigger] owned_by(rows, user_id)[l]).account_id,
    decreases rows.len(),
{
    reveal(Seq::filter);
    if rows.len() > 0 {
        let earlier = rows.drop_last();
        let last = rows.last();
        lemma_owned_rows(earlier, user_id);
        earlier.lemma_filter_push(last, is_owned_by(user_id));
        let picked = owned_by(earlier, user_id);
        assert forall|k: int| 0 <= k < picked.len() implies rows.contains(#[trigger] picked[k])
            && picked[k].account_id < last.account_id by {}
    }
}

/// In a consistent store, the accounts listed for a user are all that
/// user's, each with the opening balance, and their identifiers grow along
/// the listing: no two of them share one.
pub proof fn lemma_listed_accounts(s: StoreState, user_id: Seq<char>)
    requires
        s.wf(),
    ensures
        listing(s.accounts, user_id) matches Ok(accounts) && ids_increase(accounts) && (forall|
            k: int,
        |
            0 <= k < accounts.len() ==> (#[trigger] accounts[k]).user_id == user_id
                && accounts[k].balance == 0 && FIRST_ACCOUNT_ID <= accounts[k].account_id
                < s.next_account_id),
{
    broadcast use vstd::seq_lib::group_filter_ensures;

    lemma_listing_succeeds(s, user_id);
    lemma_owned_rows(s.accounts, user_id);
}

/// Opening one account of each of `kinds` for a registered user, with enough
/// identifiers left, adds exactly those accounts to the user's listing: as
/// many as were asked for, in that order, each of the kind asked for, each
/// with the opening balance, each with the next identifier of the sequence.
pub proof fn lemma_created_accounts_are_listed(
    s: StoreState,
    user_id: Seq<char>,
    kinds: Seq<AccountType>,
)
    requires
        s.wf(),
        s.has_user(user_id),
        s.next_account_id + kinds.len() <= ACCOUNT_ID_LIMIT,
    ensures
        s.create_accounts(user_id, kinds).wf(),
        s.create_accounts(user_id, kinds).users == s.users,
        s.create_accounts(user_id, kinds).next_account_id == s.next_account_id + kinds.len(),
        listing(s.create_accounts(user_id, kinds).accounts, user_id) == Ok::<
            Seq<AccountView>,
            StoreErrorView,
        >(
            owned_by(s.accounts, user_id).map_values(decoding()) + opened(
                s.next_account_id,
                user_id,
                kinds,
            ),
        ),
    decreases kinds.len(),
{
    let base = owned_by(s.accounts, user_id).map_values(decoding());
    if kinds.len() == 0 {
        lemma_listing_succeeds(s, user_id);
    } else {
        let earlier = kinds.drop_last();
        let kind = kinds.last();
        lemma_created_accounts_are_listed(s, user_id, earlier);
        let mid = s.create_accounts(user_id, earlier);
        let after = mid.create_account(user_id, kind);
        lemma_create_account_wf(mid, user_id, kind);
        lemma_encode_decode(kind);
        let row = mid.new_row(user_id, kind);
        let owned_mid = owned_by(mid.accounts, user_id);
        mid.accounts.lemma_filter_push(row, is_owned_by(user_id));
        owned_mid.lemma_filter_push(row, is_corrupt());
        lemma_listing_succeeds(mid, user_id);
        assert(owned_mid.push(row).map_values(decoding()) =~= owned_mid.map_values(
            decoding(),
        ).push(decoded(row)));
        assert((base + opened(s.next_account_id, user_id, earlier)).push(decoded(row)) =~= base
            + opened(s.next_account_id, user_id, kinds));
        lemma_listing_succeeds(after, user_id);
    }
}

/// Opening N accounts for a user who has none, and then listing, gives
/// exactly those N accounts in the order of creation: each of the kind asked
/// for and with the opening balance, with the next N identifiers of the
/// sequence, so that no two share one.
pub proof fn lemma_fresh_user_lists_what_was_created(
    s: StoreState,
    user_id: Seq<char>,
    kinds: Seq<AccountType>,
)
    requires
        s.wf(),
        s.has_user(user_id),
        owned_by(s.accounts, user_id).len() == 0,
        s.next_account_id + kinds.len() <= ACCOUNT_ID_LIMIT,
    ensures
        s.create_accounts(user_id, kinds).lookup(user_id) == Ok::<UserSummaryView, StoreErrorView>(
            UserSummaryView {
                user: UserView { user_id, name: s.users[user_id] },
                accounts: opened(s.next_account_id, user_id, kinds),
            },
        ),
        opened(s.next_account_id, user_id, kinds).len() == kinds.len(),
        ids_increase(opened(s.next_account_id, user_id, kinds)),
        forall|k: int|
            0 <= k < kinds.len() ==> {
                let account = #[trigger] opened(s.next_account_id, user_id, kinds)[k];
                &&& account.account_type == kinds[k]
                &&& account.balance == 0
                &&& account.user_id == user_id
                &&& account.account_id == s.next_account_id + k
            },
{
    lemma_created_accounts_are_listed(s, user_id, kinds);
}

} // verus!
