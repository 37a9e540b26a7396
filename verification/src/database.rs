//! The store itself: users and accounts held in memory, behind operations
//! that keep the consistency rules.

use vstd::prelude::*;
use crate::account_type::AccountType;
use crate::error::{StoreError, StoreErrorView};
use crate::records::{
    accounts_of, row_views, AccountRow, AccountRowView, User, UserSummary, UserSummaryView,
};
use crate::state::{
    lemma_add_user_wf, lemma_create_account_wf, lemma_listing_succeeds, StoreState,
    ACCOUNT_ID_LIMIT, FIRST_ACCOUNT_ID,
};

verus! {

/// Whether no two of `users` share an identifier.
spec fn ids_are_distinct(users: Seq<User>) -> bool {
    forall|i: int, j: int|
        0 <= i < users.len() && 0 <= j < users.len() && (#[trigger] users[i]).user_id@ == (
        #[trigger] users[j]).user_id@ ==> i == j
}

/// Whether one of `users` has the identifier `user_id`.
spec fn is_registered(users: Seq<User>, user_id: Seq<char>) -> bool {
    exists|i: int| 0 <= i < users.len() && (#[trigger] users[i]).user_id@ == user_id
}

/// The name of each of `users`, by identifier.
spec fn names_by_id(users: Seq<User>) -> Map<Seq<char>, Seq<char>> {
    Map::new(
        |user_id: Seq<char>| is_registered(users, user_id),
        |user_id: Seq<char>|
            users[choose|i: int| 0 <= i < users.len() && (#[trigger] users[i]).user_id@ == user_id].name@,
    )
}

/// With distinct identifiers, the name kept for a user's identifier is that
/// user's name.
proof fn lemma_name_of(users: Seq<User>, i: int)
    requires
        ids_are_distinct(users),
        0 <= i < users.len(),
    ensures
        names_by_id(users).contains_key(users[i].user_id@),
        names_by_id(users)[users[i].user_id@] == users[i].name@,
{
}

/// A user with a fresh identifier joins the names, and nothing else changes.
proof fn lemma_names_after_push(users: Seq<User>, user: User)
    requires
        ids_are_distinct(users),
        !is_registered(users, user.user_id@),
    ensures
        ids_are_distinct(users.push(user)),
        names_by_id(users.push(user)) == names_by_id(users).insert(user.user_id@, user.name@),
{
    let after = users.push(user);
    let grown = names_by_id(users).insert(user.user_id@, user.name@);
    assert forall|user_id: Seq<char>| #[trigger]
        names_by_id(after).contains_key(user_id) == grown.contains_key(user_id) by {
        if is_registered(users, user_id) {
            let i = choose|i: int| 0 <= i < users.len() && (#[trigger] users[i]).user_id@ == user_id;
            assert(after[i].user_id@ == user_id);
        }
        if user_id == user.user_id@ {
            assert(after[users.len() as int].user_id@ == user_id);
        }
    }
    assert forall|user_id: Seq<char>| #[trigger]
        grown.contains_key(user_id) implies names_by_id(after)[user_id] == grown[user_id] by {
        if user_id == user.user_id@ {
            lemma_name_of(after, users.len() as int);
        } else {
            let i = choose|i: int| 0 <= i < users.len() && (#[trigger] users[i]).user_id@ == user_id;
            lemma_name_of(after, i);
        }
    }
}

/// The records of a store: users and account rows in the order in which they
/// were written, and the identifier that the next account will get.
struct Tables {
    users: Vec<User>,
    accounts: Vec<AccountRow>,
    next_account_id: u64,
}

impl Tables {
    /// Tables that hold nothing, with the account sequence at `first_account_id`.
    fn starting_at(first_account_id: u64) -> (tables: Tables)
        ensures
            tables.users@.len() == 0,
            tables.accounts@.len() == 0,
            tables.next_account_id == first_account_id,
    {
        Tables { users: Vec::new(), accounts: Vec::new(), next_account_id: first_account_id }
    }
}

impl View for Tables {
    type V = StoreState;

    closed spec fn view(&self) -> StoreState {
        StoreState {
            users: names_by_id(self.users@),
            accounts: row_views(self.accounts@),
            next_account_id: self.next_account_id as nat,
        }
    }
}

/// Tables without records hold nothing.
proof fn lemma_nothing_held(tables: Tables)
    requires
        tables.users@.len() == 0,
        tables.accounts@.len() == 0,
    ensures
        tables@ == StoreState::starting_at(tables.next_account_id as nat),
        ids_are_distinct(tables.users@),
{
    assert(tables@.users =~= Map::<Seq<char>, Seq<char>>::empty());
    assert(tables@.accounts =~= Seq::<AccountRowView>::empty());
}

/// The store of users and accounts.
///
/// It holds its records in memory. What it holds is its view, a
/// `StoreState`, and every store is consistent in the sense of
/// `StoreState::wf`.
pub struct Database {
    tables: Tables,
}

impl View for Database {
    type V = StoreState;

    closed spec fn view(&self) -> StoreState {
        self.tables@
    }
}

impl Database {
    /// What holds of every store: what it holds is consistent, and no two of
    /// its user records share an identifier.
    #[verifier::type_invariant]
    spec fn sound(&self) -> bool {
        self@.wf() && ids_are_distinct(self.tables.users@)
    }

    /// Where among the users the one with `user_id` stands, if registered.
    fn find_user(&self, user_id: &String) -> (r: Option<usize>)
        ensures
            match r {
                Some(i) => i < self.tables.users.len() && self.tables.users[i as int].user_id@
                    == user_id@,
                None => !is_registered(self.tables.users@, user_id@),
            },
    {
        let users = &self.tables.users;
        let mut i: usize = 0;
        while i < users.len()
            invariant
                users == &self.tables.users,
                i <= users.len(),
                forall|k: int| 0 <= k < i ==> (#[trigger] users[k]).user_id@ != user_id@,
            decreases users.len() - i,
        {
            if users[i].user_id == *user_id {
                return Some(i);
            }
            i += 1;
        }
        None
    }

    /// Opens a store that holds nothing yet: no user, no account, and an
    /// account sequence that starts at the first identifier. This never
    /// fails.
    pub fn new_inmemory() -> (r: Result<Database, StoreError>)
        ensures
            r matches Ok(db) && db@ == StoreState::empty() && db@.wf(),
    {
        Database::with_sequence_start(FIRST_ACCOUNT_ID)
    }

    /// Opens a store that holds nothing yet and whose account sequence starts
    /// at `first_account_id`. A start below the first identifier is an engine
    /// error; every other start gives a store.
    pub fn with_sequence_start(first_account_id: u64) -> (r: Result<Database, StoreError>)
        ensures
            match r {
                Ok(db) => first_account_id >= FIRST_ACCOUNT_ID && db@ == StoreState::starting_at(
                    first_account_id as nat,
                ) && db@.wf(),
                Err(e) => first_account_id < FIRST_ACCOUNT_ID && e@ == StoreErrorView::EngineError,
            },
    {
        if first_account_id < FIRST_ACCOUNT_ID {
            return Err(StoreError::EngineError);
        }
        let tables = Tables::starting_at(first_account_id);
        proof {
            lemma_nothing_held(tables);
        }
        Ok(Database { tables })
    }

    /// Registers `user`. The result is the number of rows written: one for a
    /// fresh identifier; none where the identifier is taken, in which case
    /// the store keeps the earlier user untouched. Registering never fails.
    pub fn add_user(&mut self, user: User) -> (r: Result<usize, StoreError>)
        ensures
            r matches Ok(rows) && rows == old(self)@.rows_affected(user@),
            final(self)@ == old(self)@.add_user(user@),
            final(self)@.wf(),
    {
        proof {
            use_type_invariant(&*self);
            lemma_add_user_wf(self@, user@);
        }
        match self.find_user(&user.user_id) {
            Some(_) => Ok(0),
            None => {
                proof {
                    lemma_names_after_push(self.tables.users@, user);
                }
                let mut tables = Tables::starting_at(FIRST_ACCOUNT_ID);
                proof {
                    lemma_nothing_held(tables);
                }
                core::mem::swap(&mut tables, &mut self.tables);
                tables.users.push(user);
                self.tables = tables;
                Ok(1)
            },
        }
    }

    /// Looks up the user registered under `user_id`, with every account that
    /// the user owns, in the order of creation. An identifier under which
    /// nobody is registered is refused as not found, and that is the only
    /// refusal.
    pub fn get_accounts(&self, user_id: &String) -> (r: Result<UserSummary, StoreError>)
        ensures
            match r {
                Ok(summary) => self@.lookup(user_id@) == Ok::<UserSummaryView, StoreErrorView>(
                    summary@,
                ),
                Err(e) => self@.lookup(user_id@) == Err::<UserSummaryView, StoreErrorView>(e@),
            },
            r is Err <==> !self@.has_user(user_id@),
            r matches Err(e) ==> e@ == StoreErrorView::NotFound,
            self@.wf(),
    {
        proof {
            use_type_invariant(self);
            lemma_listing_succeeds(self@, user_id@);
        }
        match self.find_user(user_id) {
            None => Err(StoreError::NotFound),
            Some(i) => {
                proof {
                    lemma_name_of(self.tables.users@, i as int);
                }
                match accounts_of(&self.tables.accounts, user_id) {
                    Ok(accounts) => {
                        let found = &self.tables.users[i];
                        Ok(
                            UserSummary {
                                user: User {
                                    user_id: found.user_id.clone(),
                                    name: found.name.clone(),
                                },
                                accounts,
                            },
                        )
                    },
                    Err(e) => Err(e),
                }
            },
        }
    }

    /// Opens an account of `account_type` for `user`, with the opening
    /// balance and the next identifier of the account sequence. Only the
    /// user's identifier is read. The request is refused as not found where
    /// nobody is registered under it, and fails as an engine error once the
    /// sequence is exhausted; the store then stays as it was.
    pub fn create_account(&mut self, user: &User, account_type: AccountType) -> (r: Result<
        (),
        StoreError,
    >)
        ensures
            match r {
                Ok(_) => old(self)@.create_account_outcome(user.user_id@) is Ok,
                Err(e) => old(self)@.create_account_outcome(user.user_id@) == Err::<
                    (),
                    StoreErrorView,
                >(e@),
            },
            final(self)@ == old(self)@.create_account(user.user_id@, account_type),
            final(self)@.wf(),
    {
        proof {
            use_type_invariant(&*self);
            lemma_create_account_wf(self@, user.user_id@, account_type);
        }
        match self.find_user(&user.user_id) {
            None => Err(StoreError::NotFound),
            Some(_) => {
                if self.tables.next_account_id >= ACCOUNT_ID_LIMIT {
                    return Err(StoreError::EngineError);
                }
                let row = AccountRow {
                    account_id: self.tables.next_account_id,
                    user_id: user.user_id.clone(),
                    account_type: account_type.to_sql().to_owned(),
                    balance: 0,
                };
                proof {
                    assert(row_views(self.tables.accounts@.push(row)) =~= row_views(
                        self.tables.accounts@,
                    ).push(row@));
                }
                let mut tables = Tables::starting_at(FIRST_ACCOUNT_ID);
                proof {
                    lemma_nothing_held(tables);
                }
                core::mem::swap(&mut tables, &mut self.tables);
                tables.accounts.push(row);
                tables.next_account_id = tables.next_account_id + 1;
                self.tables = tables;
                Ok(())
            },
        }
    }
}

} // verus!
