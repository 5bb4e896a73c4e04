use ledger::error::AppError;
use ledger::state::{Account, AppState};

#[test]
fn test_create_account() {
    let name = String::from("Alice");
    let account = Account::new(name.clone(), 1000);
    assert_eq!(account.name, name);
    assert_eq!(account.balance, 1000);
    assert_eq!(account.transaction_count, 0);
}

#[test]
fn test_add_balance() {
    let mut account = Account::new("Bob".into(), 500);
    account.add_balance(200).unwrap();
    assert_eq!(account.get_balance(), 700);
    assert_eq!(account.transaction_count, 1);
}

#[test]
fn test_subtract_balance() {
    let mut account = Account::new("Charlie".into(), 1000);

    assert!(account.subtract_balance(400).is_ok());
    assert_eq!(account.get_balance(), 600);

    assert!(account.subtract_balance(1000).is_err());
}

#[test]
fn test_app_state_create_account() {
    let mut state = AppState::new();
    state.create_account("Alice".into(), 1000).unwrap();
    assert!(state.account_exists("Alice"));
    assert!(state.create_account("Alice".into(), 500).is_err());
}

#[test]
fn test_app_state_transfer() {
    let mut state = AppState::new();
    state.create_account("Alice".into(), 1000).unwrap();
    state.create_account("Bob".into(), 500).unwrap();

    state.transfer("Alice", "Bob", 300).unwrap();
    assert_eq!(state.get_account("Alice").unwrap().balance, 700);
    assert_eq!(state.get_account("Bob").unwrap().balance, 800);

    assert!(state.transfer("Alice", "Alice", 100).is_err());
}

#[test]
fn total_balance_sums_accounts() {
    let mut state = AppState::new();
    state.create_account("Ann".into(), 100).unwrap();
    state.create_account("Ben".into(), 200).unwrap();
    assert_eq!(state.total_balance(), 300);
}

#[test]
fn add_balance_overflow_leaves_account_unchanged() {
    let mut account = Account::new("Dora".into(), u64::MAX - 1);
    assert!(matches!(account.add_balance(2), Err(AppError::InvalidAmount(2))));
    assert_eq!(account.balance, u64::MAX - 1);
    assert_eq!(account.transaction_count, 0);
    account.add_balance(1).unwrap();
    assert_eq!(account.balance, u64::MAX);
}

#[test]
fn subtract_balance_failure_reports_amounts() {
    let mut account = Account::new("Eve".into(), 50);
    let r = account.subtract_balance(80);
    assert_eq!(r, Err(AppError::InsufficientBalance { available: 50, required: 80 }));
    assert_eq!(account.balance, 50);
    assert_eq!(account.transaction_count, 0);
    account.subtract_balance(50).unwrap();
    assert_eq!(account.balance, 0);
    assert_eq!(account.transaction_count, 1);
}

#[test]
fn sufficient_balance_and_info() {
    let account = Account::new("Fay".into(), 10);
    assert!(account.has_sufficient_balance(10));
    assert!(!account.has_sufficient_balance(11));
    assert_eq!(account.info(), "Account(name: Fay, balance: 10, transactions: 0)");
}

#[test]
fn create_account_rejections() {
    let mut state = AppState::new();
    assert!(matches!(state.create_account("A".into(), 10), Err(AppError::InvalidAccountName(_))));
    assert!(matches!(state.create_account("Ann".into(), 0), Err(AppError::InvalidAmount(0))));
    state.create_account("Ann".into(), 10).unwrap();
    assert!(matches!(state.create_account("Ann".into(), 99), Err(AppError::AccountAlreadyExists(_))));
    let ann = state.get_account("Ann").unwrap();
    assert_eq!(ann.balance, 10);
    assert_eq!(ann.transaction_count, 0);
    assert_eq!(state.account_count(), 1);
}

#[test]
fn transfer_failures_change_nothing() {
    let mut state = AppState::new();
    state.create_account("Alice".into(), 100).unwrap();
    state.create_account("Bob".into(), u64::MAX - 5).unwrap();

    let r = state.transfer("Alice", "Bob", 150);
    assert_eq!(r, Err(AppError::InsufficientBalance { available: 100, required: 150 }));
    assert!(matches!(state.transfer("Alice", "Alice", 1), Err(AppError::InvalidAmount(1))));
    assert!(matches!(state.transfer("Alice", "Bob", 0), Err(AppError::InvalidAmount(0))));
    assert!(matches!(state.transfer("Zed", "Bob", 1), Err(AppError::AccountNotFound(_))));
    assert!(matches!(state.transfer("Alice", "Zed", 1), Err(AppError::AccountNotFound(_))));
    assert!(matches!(state.transfer("Alice", "Bob", 10), Err(AppError::InvalidAmount(10))));

    assert_eq!(state.get_account("Alice").unwrap().balance, 100);
    assert_eq!(state.get_account("Bob").unwrap().balance, u64::MAX - 5);
}

#[test]
fn transfer_conserves_total() {
    let mut state = AppState::new();
    state.create_account("Alice".into(), 1000).unwrap();
    state.create_account("Bob".into(), 500).unwrap();
    let before = state.total_balance();
    state.transfer("Bob", "Alice", 500).unwrap();
    assert_eq!(state.total_balance(), before);
    assert_eq!(state.get_account("Bob").unwrap().balance, 0);
    assert_eq!(state.get_account("Alice").unwrap().transaction_count, 1);
}

#[test]
fn delete_and_lookup() {
    let mut state = AppState::new();
    state.create_account("Alice".into(), 5).unwrap();
    let gone = state.delete_account("Alice").unwrap();
    assert_eq!(gone.name, "Alice");
    assert_eq!(gone.balance, 5);
    assert!(!state.account_exists("Alice"));
    assert!(matches!(state.delete_account("Alice"), Err(AppError::AccountNotFound(_))));
    assert!(matches!(state.get_account("Alice"), Err(AppError::AccountNotFound(_))));
    assert_eq!(state.account_count(), 0);
}

#[test]
fn get_account_mut_changes_balance() {
    let mut state = AppState::new();
    state.create_account("Alice".into(), 5).unwrap();
    state.get_account_mut("Alice").unwrap().add_balance(7).unwrap();
    assert_eq!(state.get_account("Alice").unwrap().balance, 12);
    assert!(state.get_account_mut("Nobody").is_err());
}

#[test]
fn list_accounts_is_sorted() {
    let mut state = AppState::new();
    assert!(state.list_accounts().is_empty());
    for name in ["Mallory", "Alice", "bob", "Bob", "Zoe", "Al"] {
        state.create_account(name.to_string(), 1).unwrap();
    }
    assert_eq!(state.list_accounts(), vec!["Al", "Alice", "Bob", "Mallory", "Zoe", "bob"]);
    assert_eq!(state.account_count(), 6);
}

#[test]
fn clone_is_independent() {
    let mut state = AppState::new();
    state.create_account("Alice".into(), 5).unwrap();
    let copy = state.clone();
    state.create_account("Bob".into(), 5).unwrap();
    assert_eq!(copy.account_count(), 1);
    assert_eq!(state.account_count(), 2);
}

#[test]
fn checked_total_and_transaction_count() {
    let mut state = AppState::default();
    assert_eq!(state.checked_total_balance(), Some(0));
    assert_eq!(state.total_transactions(), 0);
    state.create_account("Big".into(), u64::MAX).unwrap();
    assert_eq!(state.checked_total_balance(), Some(u64::MAX));
    state.create_account("Bigger".into(), 1).unwrap();
    assert_eq!(state.checked_total_balance(), None);
    state.transfer("Bigger", "Big", 1).unwrap_err();
    state.delete_account("Bigger").unwrap();
    assert_eq!(state.total_transactions(), 3);
    state.get_account_mut("Big").unwrap().subtract_balance(5).unwrap();
    assert_eq!(state.total_transactions(), 3);
    assert_eq!(state.total_balance(), u64::MAX - 5);
}
