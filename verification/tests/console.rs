use bank_terminal::account_type::AccountType;
use bank_terminal::console::{
    create_account, decimal, options_message, parse_account_type, parse_choice, parse_command,
    register, select_option, AccountCreation, Command, Registration, Selection,
};
use bank_terminal::database::Database;
use bank_terminal::error::StoreError;
use bank_terminal::records::{Account, User};

#[test]
fn command_words_are_recognised() {
    assert_eq!(parse_command("exit"), Command::Exit);
    assert_eq!(parse_command("help"), Command::Help);
    assert_eq!(parse_command("register"), Command::Register);
    assert_eq!(parse_command("accounts"), Command::Accounts);
}

#[test]
fn other_lines_are_unknown_commands() {
    for line in ["", "Exit", "exit ", " help", "quit", "account", "registers", "accounts\n"] {
        assert_eq!(parse_command(line), Command::Unknown);
    }
}

#[test]
fn choices_are_read_as_decimal_numbers() {
    assert_eq!(parse_choice("0"), Some(0));
    assert_eq!(parse_choice("7"), Some(7));
    assert_eq!(parse_choice("12"), Some(12));
    assert_eq!(parse_choice("255"), Some(255));
    assert_eq!(parse_choice("007"), Some(7));
    assert_eq!(parse_choice("+3"), Some(3));
    assert_eq!(parse_choice("0000000000000000000000255"), Some(255));
}

#[test]
fn choices_that_are_no_number_are_refused() {
    for text in ["", "+", "-1", "256", "300", "1000", "65536", "99999999999999999999", "1 ", " 1",
        "1.0", "one", "++1", "1+", "٣", "1é", "é"]
    {
        assert_eq!(parse_choice(text), None);
    }
}

#[test]
fn choices_agree_with_the_standard_reading() {
    for n in 0u32..400 {
        let text = n.to_string();
        assert_eq!(parse_choice(&text), text.parse::<u8>().ok());
        let signed = format!("+{}", n);
        assert_eq!(parse_choice(&signed), signed.parse::<u8>().ok());
    }
    for text in ["", "+", "-0", "0x10", "1_0", "00", "+00", "2 5"] {
        assert_eq!(parse_choice(text), text.parse::<u8>().ok());
    }
}

#[test]
fn menu_choice_picks_an_account_or_a_new_one() {
    assert_eq!(select_option("0", 3), Selection::Account(0));
    assert_eq!(select_option("2", 3), Selection::Account(2));
    assert_eq!(select_option("3", 3), Selection::CreateAccount);
    assert_eq!(select_option("4", 3), Selection::OutOfRange);
    assert_eq!(select_option("0", 0), Selection::CreateAccount);
    assert_eq!(select_option("1", 0), Selection::OutOfRange);
    assert_eq!(select_option("x", 3), Selection::NotANumber);
    assert_eq!(select_option("", 0), Selection::NotANumber);
    assert_eq!(select_option("256", 1000), Selection::NotANumber);
    assert_eq!(select_option("255", 1000), Selection::Account(255));
    assert_eq!(select_option("255", 255), Selection::CreateAccount);
}

#[test]
fn account_kinds_are_chosen_by_number() {
    assert_eq!(parse_account_type("0"), Some(AccountType::CHEQUING));
    assert_eq!(parse_account_type("1"), Some(AccountType::SAVINGS));
    for text in ["", "2", "00", "01", "+1", "savings", "SAVINGS", " 1"] {
        assert_eq!(parse_account_type(text), None);
    }
}

#[test]
fn registering_reports_a_taken_identifier() {
    let mut db = Database::new_inmemory().unwrap();
    assert_eq!(
        register(&mut db, "uma".to_string(), "Uma U".to_string()),
        Registration::Registered
    );
    assert_eq!(
        register(&mut db, "uma".to_string(), "Impostor".to_string()),
        Registration::AlreadyExists
    );
    assert_eq!(db.get_accounts(&"uma".to_string()).unwrap().user.name, "Uma U");
}

#[test]
fn creating_from_the_menu_of_kinds() {
    let mut db = Database::new_inmemory().unwrap();
    let vera = User { user_id: "vera".to_string(), name: "Vera V".to_string() };
    assert_eq!(
        create_account(&mut db, &vera, "1"),
        AccountCreation::Failed(StoreError::NotFound)
    );
    assert_eq!(
        register(&mut db, "vera".to_string(), "Vera V".to_string()),
        Registration::Registered
    );
    assert_eq!(create_account(&mut db, &vera, "1"), AccountCreation::Created(AccountType::SAVINGS));
    assert_eq!(create_account(&mut db, &vera, "0"), AccountCreation::Created(AccountType::CHEQUING));
    assert_eq!(create_account(&mut db, &vera, "2"), AccountCreation::InvalidSelection);
    assert_eq!(create_account(&mut db, &vera, ""), AccountCreation::InvalidSelection);
    let summary = db.get_accounts(&"vera".to_string()).unwrap();
    assert_eq!(summary.accounts.len(), 2);
    assert_eq!(summary.accounts[0].account_type, AccountType::SAVINGS);
    assert_eq!(summary.accounts[1].account_type, AccountType::CHEQUING);
    assert_eq!(select_option("2", summary.accounts.len()), Selection::CreateAccount);
}

#[test]
fn numbers_are_written_in_decimal() {
    assert_eq!(decimal(0), "0");
    assert_eq!(decimal(7), "7");
    assert_eq!(decimal(10), "10");
    assert_eq!(decimal(255), "255");
    assert_eq!(decimal(1000), "1000");
    assert_eq!(decimal(9007199254740993), "9007199254740993");
    assert_eq!(decimal(u64::MAX), "18446744073709551615");
}

#[test]
fn written_numbers_read_back() {
    for n in 0u8..=255 {
        assert_eq!(parse_choice(&decimal(n as u64)), Some(n));
    }
    assert_eq!(parse_choice(&decimal(256)), None);
}

#[test]
fn menu_of_a_user_without_accounts() {
    assert_eq!(options_message(&vec![]), "\t0 - Create new account\n");
}

#[test]
fn menu_lists_each_account_then_the_new_one() {
    let accounts = vec![
        Account {
            account_id: 1,
            user_id: "wade".to_string(),
            account_type: AccountType::CHEQUING,
            balance: 0,
        },
        Account {
            account_id: 13,
            user_id: "wade".to_string(),
            account_type: AccountType::SAVINGS,
            balance: 0,
        },
    ];
    assert_eq!(
        options_message(&accounts),
        "\t0 - Account #1\n\t1 - Account #13\n\t2 - Create new account\n"
    );
}

#[test]
fn the_number_shown_for_an_entry_selects_it() {
    for accounts in [0usize, 1, 2, 9, 10, 11, 99, 100, 255] {
        for entry in 0..=accounts {
            let expected = if entry == accounts {
                Selection::CreateAccount
            } else {
                Selection::Account(entry)
            };
            assert_eq!(select_option(&decimal(entry as u64), accounts), expected);
        }
    }
}
