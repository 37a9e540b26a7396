//! What the terminal decides: which command a line asks for, which menu
//! entry a choice picks, and how a registration or a new account ends.
//! Reading and printing are left to the caller.

use vstd::prelude::*;
use vstd::string::{is_ascii_spec_bytes, StringExecFns};
use vstd::utf8::is_ascii_chars;
use crate::account_type::AccountType;
use crate::database::Database;
use crate::error::{StoreError, StoreErrorView};
use crate::records::{account_views, Account, AccountView, User, UserView};

verus! {

/// A command of the terminal.
#[derive(Clone, Copy, Debug, PartialEq, Eq, Structural)]
pub enum Command {
    /// Leave the terminal.
    Exit,
    /// Show the list of commands.
    Help,
    /// Register a new user.
    Register,
    /// Show the accounts of a user.
    Accounts,
    /// Anything else.
    Unknown,
}

/// The command that a line of input, already trimmed, asks for.
pub open spec fn command_of(text: Seq<char>) -> Command {
    if text == "exit"@ {
        Command::Exit
    } else if text == "help"@ {
        Command::Help
    } else if text == "register"@ {
        Command::Register
    } else if text == "accounts"@ {
        Command::Accounts
    } else {
        Command::Unknown
    }
}

/// Whether two texts hold the same characters.
fn same_text(a: &str, b: &str) -> (r: bool)
    ensures
        r == (a@ == b@),
{
    a.to_owned() == b.to_owned()
}

/// Reads a trimmed line of input as a command. The four command words are
/// matched exactly; every other line is `Unknown`.
pub fn parse_command(input: &str) -> (r: Command)
    ensures
        r == command_of(input@),
{
    if same_text(input, "exit") {
        Command::Exit
    } else if same_text(input, "help") {
        Command::Help
    } else if same_text(input, "register") {
        Command::Register
    } else if same_text(input, "accounts") {
        Command::Accounts
    } else {
        Command::Unknown
    }
}

/// Whether `c` is one of the ten decimal digits.
pub open spec fn is_digit(c: char) -> bool {
    '0' <= c <= '9'
}

/// The number that a run of decimal digits writes.
pub open spec fn digits_value(digits: Seq<char>) -> nat
    decreases digits.len(),
{
    if digits.len() == 0 {
        0
    } else {
        digits_value(digits.drop_last()) * 10 + (digits.last() as nat - '0' as nat) as nat
    }
}

/// The part of a choice that must be digits: all of it, but for one leading
/// plus sign.
pub open spec fn choice_digits(text: Seq<char>) -> Seq<char> {
    if text.len() > 0 && text[0] == '+' {
        text.subrange(1, text.len() as int)
    } else {
        text
    }
}

/// The number that a menu choice names: one or more decimal digits, with or
/// without a plus sign in front, that write a number of at most 255. Any
/// other text names none.
pub open spec fn choice_of(text: Seq<char>) -> Option<u8> {
    let digits = choice_digits(text);
    if digits.len() > 0 && (forall|i: int| 0 <= i < digits.len() ==> is_digit(#[trigger] digits[i]))
        && digits_value(digits) <= 255 {
        Some(digits_value(digits) as u8)
    } else {
        None
    }
}

/// A text with a character outside ASCII names no number.
proof fn lemma_non_ascii_is_no_choice(text: Seq<char>)
    requires
        !is_ascii_chars(text),
    ensures
        choice_of(text) is None,
{
    let i = choose|i: int| 0 <= i < text.len() && !('\0' <= #[trigger] text[i] <= '\u{7f}');
    let digits = choice_digits(text);
    if text[0] == '+' {
        assert(!is_digit(digits[i - 1]));
    }
}

/// A run of digits writes at least what any of its beginnings writes.
proof fn lemma_digits_value_grows(digits: Seq<char>, k: int)
    requires
        0 <= k <= digits.len(),
    ensures
        digits_value(digits.take(k)) <= digits_value(digits),
    decreases digits.len(),
{
    if k == digits.len() {
        assert(digits.take(k) =~= digits);
    } else {
        lemma_digits_value_grows(digits.drop_last(), k);
        assert(digits.drop_last().take(k) =~= digits.take(k));
    }
}

/// Reads a menu choice as a number from 0 to 255.
pub fn parse_choice(input: &str) -> (r: Option<u8>)
    ensures
        r == choice_of(input@),
{
    if !input.is_ascii() {
        proof {
            lemma_non_ascii_is_no_choice(input@);
        }
        return None;
    }
    let bytes = input.as_bytes();
    proof {
        is_ascii_spec_bytes(input);
    }
    let n = bytes.len();
    let start: usize = if n > 0 && bytes[0] == 43u8 {
        1
    } else {
        0
    };
    let ghost digits = choice_digits(input@);
    if start == n {
        return None;
    }
    let mut value: u16 = 0;
    let mut i: usize = start;
    while i < n
        invariant
            start <= i <= n,
            n == bytes@.len(),
            n == input@.len(),
            forall|k: int| 0 <= k < n ==> bytes@[k] == input@[k] as u8,
            forall|k: int| 0 <= k < n ==> '\0' <= #[trigger] input@[k] <= '\u{7f}',
            digits == choice_digits(input@),
            digits == input@.subrange(start as int, n as int),
            forall|k: int| 0 <= k < i - start ==> is_digit(#[trigger] digits[k]),
            value == digits_value(digits.take(i - start)),
            value <= 255,
        decreases n - i,
    {
        let b = bytes[i];
        if b < 48u8 || b > 57u8 {
            assert(!is_digit(digits[i - start]));
            return None;
        }
        let next: u16 = value * 10 + (b - 48u8) as u16;
        proof {
            let longer = digits.take(i + 1 - start);
            assert(longer.drop_last() =~= digits.take(i - start));
        }
        if next > 255 {
            proof {
                lemma_digits_value_grows(digits, i + 1 - start);
            }
            return None;
        }
        value = next;
        i += 1;
    }
    proof {
        assert(digits.take(i - start) =~= digits);
    }
    Some(value as u8)
}

/// What a choice in the menu of a user's accounts picks. The menu lists the
/// accounts from 0 on and, after the last of them, the entry that opens a new
/// account.
#[derive(Clone, Copy, Debug, PartialEq, Eq, Structural)]
pub enum Selection {
    /// The choice is no number from 0 to 255.
    NotANumber,
    /// The choice is a number beyond the last entry.
    OutOfRange,
    /// The entry after the accounts: open a new account.
    CreateAccount,
    /// The account at this place in the user's listing.
    Account(usize),
}

/// What the number `choice` picks in the menu of a user with `accounts`
/// accounts.
pub open spec fn selection_of(choice: Option<u8>, accounts: nat) -> Selection {
    match choice {
        None => Selection::NotANumber,
        Some(n) => if n > accounts {
            Selection::OutOfRange
        } else if n == accounts {
            Selection::CreateAccount
        } else {
            Selection::Account(n as usize)
        },
    }
}

/// Reads a choice in the menu of a user with `num_accounts` accounts.
pub fn select_option(input: &str, num_accounts: usize) -> (r: Selection)
    ensures
        r == selection_of(choice_of(input@), num_accounts as nat),
{
    match parse_choice(input) {
        None => Selection::NotANumber,
        Some(n) => {
            let picked: usize = n as usize;
            if picked > num_accounts {
                Selection::OutOfRange
            } else if picked == num_accounts {
                Selection::CreateAccount
            } else {
                Selection::Account(picked)
            }
        },
    }
}

/// The character that writes a number below ten.
pub open spec fn digit_char(d: nat) -> char
    recommends
        d < 10,
{
    seq!['0', '1', '2', '3', '4', '5', '6', '7', '8', '9'][d as int]
}

/// A number written in decimal digits, without leading zeros.
pub open spec fn decimal_text(n: nat) -> Seq<char>
    decreases n,
{
    if n < 10 {
        seq![digit_char(n)]
    } else {
        decimal_text(n / 10).push(digit_char(n % 10))
    }
}

/// A number that was written out reads back as itself. So the number shown
/// beside an entry of the menu, typed as the choice, picks that entry.
pub proof fn lemma_decimal_reads_back(n: nat)
    ensures
        decimal_text(n).len() > 0,
        forall|i: int| 0 <= i < decimal_text(n).len() ==> is_digit(#[trigger] decimal_text(n)[i]),
        digits_value(decimal_text(n)) == n,
        n <= 255 ==> choice_of(decimal_text(n)) == Some(n as u8),
        forall|accounts: nat|
            n <= 255 && n <= accounts ==> #[trigger] selection_of(
                choice_of(decimal_text(n)),
                accounts,
            ) == if n == accounts {
                Selection::CreateAccount
            } else {
                Selection::Account(n as usize)
            },
    decreases n,
{
    let text = decimal_text(n);
    if n < 10 {
        assert(text.last() == digit_char(n));
    } else {
        lemma_decimal_reads_back(n / 10);
        assert(text.drop_last() =~= decimal_text(n / 10));
    }
}

/// The text of one digit.
fn digit_text(d: u64) -> (text: &'static str)
    requires
        d < 10,
    ensures
        text@ == seq![digit_char(d as nat)],
{
    proof {
        reveal_strlit("0");
        reveal_strlit("1");
        reveal_strlit("2");
        reveal_strlit("3");
        reveal_strlit("4");
        reveal_strlit("5");
        reveal_strlit("6");
        reveal_strlit("7");
        reveal_strlit("8");
        reveal_strlit("9");
    }
    match d {
        0 => "0",
        1 => "1",
        2 => "2",
        3 => "3",
        4 => "4",
        5 => "5",
        6 => "6",
        7 => "7",
        8 => "8",
        _ => "9",
    }
}

/// Writes a number in decimal digits.
pub fn decimal(n: u64) -> (text: String)
    ensures
        text@ == decimal_text(n as nat),
    decreases n,
{
    if n < 10 {
        String::from_str(digit_text(n))
    } else {
        let mut text = decimal(n / 10);
        text.append(digit_text(n % 10));
        text
    }
}

/// The menu line of the account with identifier `account_id` at place
/// `index` of a listing.
pub open spec fn account_line(index: nat, account_id: nat) -> Seq<char> {
    "\t"@ + decimal_text(index) + " - Account #"@ + decimal_text(account_id) + "\n"@
}

/// The menu line of the entry that opens a new account, at place `index`.
pub open spec fn create_line(index: nat) -> Seq<char> {
    "\t"@ + decimal_text(index) + " - Create new account\n"@
}

/// The menu lines of `accounts`, one for each, numbered from 0 on.
pub open spec fn account_lines(accounts: Seq<AccountView>) -> Seq<char>
    decreases accounts.len(),
{
    if accounts.len() == 0 {
        Seq::empty()
    } else {
        account_lines(accounts.drop_last()) + account_line(
            (accounts.len() - 1) as nat,
            accounts.last().account_id,
        )
    }
}

/// The menu of a user's accounts: a line for each account, then the line of
/// the entry that opens a new one.
pub open spec fn menu_text(accounts: Seq<AccountView>) -> Seq<char> {
    account_lines(accounts) + create_line(accounts.len())
}

/// Writes the menu of a user's accounts.
pub fn options_message(accounts: &Vec<Account>) -> (text: String)
    ensures
        text@ == menu_text(account_views(accounts@)),
{
    let ghost all = account_views(accounts@);
    let mut text = String::new();
    let mut i: usize = 0;
    while i < accounts.len()
        invariant
            i <= accounts.len(),
            all == account_views(accounts@),
            text@ == account_lines(all.take(i as int)),
        decreases accounts.len() - i,
    {
        let index = decimal(i as u64);
        let account_id = decimal(accounts[i].account_id);
        text.append("\t");
        text.append(index.as_str());
        text.append(" - Account #");
        text.append(account_id.as_str());
        text.append("\n");
        proof {
            let shown = all.take(i + 1);
            assert(shown.drop_last() =~= all.take(i as int));
        }
        i += 1;
    }
    let index = decimal(i as u64);
    text.append("\t");
    text.append(index.as_str());
    text.append(" - Create new account\n");
    proof {
        assert(all.take(i as int) =~= all);
    }
    text
}

/// The account kind that a choice in the menu of kinds names: `0` for
/// chequing, `1` for savings, nothing else.
pub open spec fn kind_of_choice(text: Seq<char>) -> Option<AccountType> {
    if text == "0"@ {
        Some(AccountType::CHEQUING)
    } else if text == "1"@ {
        Some(AccountType::SAVINGS)
    } else {
        None
    }
}

/// Reads a choice in the menu of account kinds.
pub fn parse_account_type(input: &str) -> (r: Option<AccountType>)
    ensures
        r == kind_of_choice(input@),
{
    if same_text(input, "0") {
        Some(AccountType::CHEQUING)
    } else if same_text(input, "1") {
        Some(AccountType::SAVINGS)
    } else {
        None
    }
}

/// How a registration ended.
#[derive(Clone, Debug, PartialEq, Eq)]
pub enum Registration {
    /// The user is now registered.
    Registered,
    /// The identifier was taken; nothing was written.
    AlreadyExists,
    /// The store failed.
    Failed(StoreError),
}

/// Registers a user under `user_id` with the display name `name`. The user
/// is registered exactly when the identifier was free; where it was taken the
/// store stays as it was.
pub fn register(db: &mut Database, user_id: String, name: String) -> (r: Registration)
    ensures
        final(db)@.wf(),
        final(db)@ == old(db)@.add_user(UserView { user_id: user_id@, name: name@ }),
        match r {
            Registration::Registered => !old(db)@.has_user(user_id@),
            Registration::AlreadyExists => old(db)@.has_user(user_id@),
            Registration::Failed(_) => false,
        },
{
    let user = User { user_id, name };
    match db.add_user(user) {
        Ok(rows) => if rows == 1 {
            Registration::Registered
        } else {
            Registration::AlreadyExists
        },
        Err(e) => Registration::Failed(e),
    }
}

/// How opening an account from the menu of kinds ended.
#[derive(Clone, Debug, PartialEq, Eq)]
pub enum AccountCreation {
    /// An account of this kind was opened.
    Created(AccountType),
    /// The choice names no account kind; the store was not asked.
    InvalidSelection,
    /// The store refused or failed; nothing was written.
    Failed(StoreError),
}

/// Opens an account for `user`, of the kind that `choice` names in the menu
/// of kinds.
pub fn create_account(db: &mut Database, user: &User, choice: &str) -> (r: AccountCreation)
    ensures
        match r {
            AccountCreation::Created(kind) => {
                &&& final(db)@.wf()
                &&& kind_of_choice(choice@) == Some(kind)
                &&& old(db)@.create_account_outcome(user.user_id@) is Ok
                &&& final(db)@ == old(db)@.create_account(user.user_id@, kind)
            },
            AccountCreation::InvalidSelection => {
                &&& kind_of_choice(choice@) is None
                &&& final(db)@ == old(db)@
            },
            AccountCreation::Failed(e) => {
                &&& final(db)@.wf()
                &&& kind_of_choice(choice@) is Some
                &&& old(db)@.create_account_outcome(user.user_id@) == Err::<(), StoreErrorView>(e@)
                &&& final(db)@ == old(db)@
            },
        },
{
    match parse_account_type(choice) {
        None => AccountCreation::InvalidSelection,
        Some(kind) => match db.create_account(user, kind) {
            Ok(_) => AccountCreation::Created(kind),
            Err(e) => AccountCreation::Failed(e),
        },
    }
}

} // verus!
