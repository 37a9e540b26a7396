use bank_terminal::account_type::AccountType;
use bank_terminal::error::StoreError;
use bank_terminal::records::{accounts_of, decode_account, Account, AccountRow};

fn row(account_id: u64, user_id: &str, account_type: &str) -> AccountRow {
    AccountRow {
        account_id,
        user_id: user_id.to_string(),
        account_type: account_type.to_string(),
        balance: 0,
    }
}

fn account(account_id: u64, user_id: &str, account_type: AccountType) -> Account {
    Account { account_id, user_id: user_id.to_string(), account_type, balance: 0 }
}

#[test]
fn a_row_is_read_field_by_field() {
    let stored = AccountRow {
        account_id: 7,
        user_id: "quinn".to_string(),
        account_type: "SAVINGS".to_string(),
        balance: 1250,
    };
    assert_eq!(
        decode_account(&stored),
        Ok(Account {
            account_id: 7,
            user_id: "quinn".to_string(),
            account_type: AccountType::SAVINGS,
            balance: 1250,
        })
    );
    assert_eq!(decode_account(&row(8, "quinn", "CHEQUING")), Ok(account(8, "quinn", AccountType::CHEQUING)));
}

#[test]
fn a_row_of_unknown_kind_is_refused() {
    assert_eq!(
        decode_account(&row(9, "quinn", "GOLD")),
        Err(StoreError::InvalidAccountType("GOLD".to_string()))
    );
}

#[test]
fn listing_picks_the_rows_of_one_owner_in_order() {
    let rows = vec![
        row(1, "rosa", "CHEQUING"),
        row(2, "sven", "SAVINGS"),
        row(3, "rosa", "SAVINGS"),
        row(4, "rosa", "CHEQUING"),
    ];
    assert_eq!(
        accounts_of(&rows, &"rosa".to_string()),
        Ok(vec![
            account(1, "rosa", AccountType::CHEQUING),
            account(3, "rosa", AccountType::SAVINGS),
            account(4, "rosa", AccountType::CHEQUING),
        ])
    );
    assert_eq!(
        accounts_of(&rows, &"sven".to_string()),
        Ok(vec![account(2, "sven", AccountType::SAVINGS)])
    );
    assert_eq!(accounts_of(&rows, &"tina".to_string()), Ok(vec![]));
    assert_eq!(accounts_of(&vec![], &"rosa".to_string()), Ok(vec![]));
}

#[test]
fn listing_stops_at_the_first_unreadable_row_of_the_owner() {
    let rows = vec![
        row(1, "rosa", "CHEQUING"),
        row(2, "sven", "PLATINUM"),
        row(3, "rosa", "GOLD"),
        row(4, "rosa", "SILVER"),
    ];
    assert_eq!(
        accounts_of(&rows, &"rosa".to_string()),
        Err(StoreError::InvalidAccountType("GOLD".to_string()))
    );
    assert_eq!(
        accounts_of(&rows, &"sven".to_string()),
        Err(StoreError::InvalidAccountType("PLATINUM".to_string()))
    );
    assert_eq!(accounts_of(&rows, &"tina".to_string()), Ok(vec![]));
}
