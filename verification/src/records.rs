//! The records that the store keeps and hands out, and how a stored account
//! row is read back into a typed account.

use vstd::prelude::*;
use crate::account_type::{decode, AccountType};
use crate::error::{StoreError, StoreErrorView};

verus! {

/// A registered holder of accounts, known by an identifier of their choice.
#[derive(Clone, Debug, PartialEq, Eq)]
pub struct User {
    pub user_id: String,
    pub name: String,
}

/// A `User` with its texts as sequences of characters.
pub struct UserView {
    pub user_id: Seq<char>,
    pub name: Seq<char>,
}

impl View for User {
    type V = UserView;

    open spec fn view(&self) -> UserView {
        UserView { user_id: self.user_id@, name: self.name@ }
    }
}

/// An account as it is stored: the kind is kept as text.
#[derive(Clone, Debug, PartialEq, Eq)]
pub struct AccountRow {
    pub account_id: u64,
    pub user_id: String,
    pub account_type: String,
    /// In hundredths of the currency unit.
    pub balance: i64,
}

/// An `AccountRow` over mathematical integers and sequences of characters.
pub struct AccountRowView {
    pub account_id: nat,
    pub user_id: Seq<char>,
    pub account_type: Seq<char>,
    pub balance: int,
}

impl View for AccountRow {
    type V = AccountRowView;

    open spec fn view(&self) -> AccountRowView {
        AccountRowView {
            account_id: self.account_id as nat,
            user_id: self.user_id@,
            account_type: self.account_type@,
            balance: self.balance as int,
        }
    }
}

/// An account as callers see it: the kind is one of the closed set.
#[derive(Clone, Debug, PartialEq, Eq)]
pub struct Account {
    pub account_id: u64,
    pub user_id: String,
    pub account_type: AccountType,
    /// In hundredths of the currency unit.
    pub balance: i64,
}

/// An `Account` over mathematical integers and sequences of characters.
pub struct AccountView {
    pub account_id: nat,
    pub user_id: Seq<char>,
    pub account_type: AccountType,
    pub balance: int,
}

impl View for Account {
    type V = AccountView;

    open spec fn view(&self) -> AccountView {
        AccountView {
            account_id: self.account_id as nat,
            user_id: self.user_id@,
            account_type: self.account_type,
            balance: self.balance as int,
        }
    }
}

/// A user together with every account that the user owns.
#[derive(Clone, Debug, PartialEq, Eq)]
pub struct UserSummary {
    pub user: User,
    pub accounts: Vec<Account>,
}

/// A `UserSummary` as a user view and a sequence of account views.
pub struct UserSummaryView {
    pub user: UserView,
    pub accounts: Seq<AccountView>,
}

impl View for UserSummary {
    type V = UserSummaryView;

    open spec fn view(&self) -> UserSummaryView {
        UserSummaryView { user: self.user@, accounts: account_views(self.accounts@) }
    }
}

/// The views of a sequence of stored rows, in the same order.
pub open spec fn row_views(rows: Seq<AccountRow>) -> Seq<AccountRowView> {
    rows.map_values(|row: AccountRow| row@)
}

/// The views of a sequence of accounts, in the same order.
pub open spec fn account_views(accounts: Seq<Account>) -> Seq<AccountView> {
    accounts.map_values(|account: Account| account@)
}

/// Whether the kind of a stored row is one of the known literals.
pub open spec fn row_is_valid(row: AccountRowView) -> bool {
    decode(row.account_type).is_some()
}

/// The account that a valid stored row stands for.
pub open spec fn decoded(row: AccountRowView) -> AccountView
    recommends
        row_is_valid(row),
{
    AccountView {
        account_id: row.account_id,
        user_id: row.user_id,
        account_type: decode(row.account_type).unwrap(),
        balance: row.balance,
    }
}

/// The test that picks the rows of one owner.
pub open spec fn is_owned_by(user_id: Seq<char>) -> spec_fn(AccountRowView) -> bool {
    |row: AccountRowView| row.user_id == user_id
}

/// The test that picks the rows whose kind cannot be read.
pub open spec fn is_corrupt() -> spec_fn(AccountRowView) -> bool {
    |row: AccountRowView| !row_is_valid(row)
}

/// The function that reads a row.
pub open spec fn decoding() -> spec_fn(AccountRowView) -> AccountView {
    |row: AccountRowView| decoded(row)
}

/// The rows that belong to `user_id`, in stored order.
pub open spec fn owned_by(rows: Seq<AccountRowView>, user_id: Seq<char>) -> Seq<AccountRowView> {
    rows.filter(is_owned_by(user_id))
}

/// What listing the accounts of `user_id` gives: every row of that owner,
/// read, in stored order; or, if one of them cannot be read, the refusal of
/// the first such row.
pub open spec fn listing(rows: Seq<AccountRowView>, user_id: Seq<char>) -> Result<
    Seq<AccountView>,
    StoreErrorView,
> {
    let owned = owned_by(rows, user_id);
    let corrupt = owned.filter(is_corrupt());
    if corrupt.len() > 0 {
        Err(StoreErrorView::InvalidAccountType(corrupt[0].account_type))
    } else {
        Ok(owned.map_values(decoding()))
    }
}

/// Reads one stored row. The row is refused, with its text, if its kind is
/// none of the known literals; nothing is put in its place.
pub fn decode_account(row: &AccountRow) -> (r: Result<Account, StoreError>)
    ensures
        match r {
            Ok(account) => row_is_valid(row@) && account@ == decoded(row@),
            Err(e) => !row_is_valid(row@) && e@ == StoreErrorView::InvalidAccountType(
                row.account_type@,
            ),
        },
{
    match AccountType::from_string(row.account_type.clone()) {
        Ok(kind) => Ok(
            Account {
                account_id: row.account_id,
                user_id: row.user_id.clone(),
                account_type: kind,
                balance: row.balance,
            },
        ),
        Err(e) => Err(e),
    }
}

/// Lists the accounts of `user_id` among `rows`, in stored order, each row
/// read into a typed account. The first row of that owner that cannot be read
/// ends the listing with its refusal.
pub fn accounts_of(rows: &Vec<AccountRow>, user_id: &String) -> (r: Result<
    Vec<Account>,
    StoreError,
>)
    ensures
        match r {
            Ok(accounts) => listing(row_views(rows@), user_id@) == Ok::<
                Seq<AccountView>,
                StoreErrorView,
            >(account_views(accounts@)),
            Err(e) => listing(row_views(rows@), user_id@) == Err::<
                Seq<AccountView>,
                StoreErrorView,
            >(e@),
        },
{
    let ghost all = row_views(rows@);
    let ghost owner = is_owned_by(user_id@);
    let mut accounts: Vec<Account> = Vec::new();
    let mut i: usize = 0;
    proof {
        reveal(Seq::filter);
    }
    while i < rows.len()
        invariant
            i <= rows.len(),
            all == row_views(rows@),
            owner == is_owned_by(user_id@),
            all.take(i as int).filter(owner).filter(is_corrupt()).len() == 0,
            account_views(accounts@) == all.take(i as int).filter(owner).map_values(decoding()),
        decreases rows.len() - i,
    {
        let row = &rows[i];
        let ghost before = all.take(i as int);
        proof {
            assert(all.take(i + 1) =~= before.push(all[i as int]));
            before.lemma_filter_push(row@, owner);
        }
        if row.user_id == *user_id {
            proof {
                before.filter(owner).lemma_filter_push(row@, is_corrupt());
            }
            match decode_account(row) {
                Ok(account) => {
                    accounts.push(account);
                    proof {
                        assert(before.filter(owner).push(row@).map_values(decoding())
                            =~= before.filter(owner).map_values(decoding()).push(decoded(row@)));
                    }
                },
                Err(e) => {
                    proof {
                        let seen = all.take(i + 1);
                        let rest = all.skip(i + 1);
                        assert(all =~= seen + rest);
                        Seq::filter_distributes_over_add(seen, rest, owner);
                        Seq::filter_distributes_over_add(
                            seen.filter(owner),
                            rest.filter(owner),
                            is_corrupt(),
                        );
                    }
                    return Err(e);
                },
            }
        }
        i += 1;
    }
    proof {
        assert(all.take(i as int) =~= all);
    }
    Ok(accounts)
}

} // verus!
