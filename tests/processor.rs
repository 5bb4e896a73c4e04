use ledger::error::AppError;
use ledger::instruction::Instruction;
use ledger::processor::{dry_run, process_batch, process_instruction, process_transaction};
use ledger::state::AppState;

fn create(name: &str, balance: u64) -> Instruction {
    Instruction::create_account(name.to_string(), balance)
}

#[test]
fn test_process_create_account() {
    let mut state = AppState::new();
    let instruction = Instruction::CreateAccount { name: String::from("Alice"), balance: 1000 };
    let result = process_instruction(&instruction, &mut state);
    assert!(result.is_ok());
    assert!(state.account_exists("Alice"));
    assert_eq!(result.unwrap(), "Created account 'Alice' with balance 1000");
}

#[test]
fn test_process_transfer() {
    let mut state = AppState::new();
    process_instruction(&create("Alice", 1000), &mut state).unwrap();
    process_instruction(&create("Bob", 500), &mut state).unwrap();
    let msg = process_instruction(
        &Instruction::transfer("Alice".to_string(), "Bob".to_string(), 200),
        &mut state,
    )
    .unwrap();
    assert_eq!(msg, "Transferred 200 from 'Alice' to 'Bob'");
    assert_eq!(state.get_account("Alice").unwrap().balance, 800);
    assert_eq!(state.get_account("Bob").unwrap().balance, 700);
}

#[test]
fn test_transfer_insufficient_balance() {
    let mut state = AppState::new();
    process_instruction(&create("Alice", 100), &mut state).unwrap();
    process_instruction(&create("Bob", 500), &mut state).unwrap();
    let r = process_instruction(
        &Instruction::transfer("Alice".to_string(), "Bob".to_string(), 200),
        &mut state,
    );
    assert_eq!(r, Err(AppError::InsufficientBalance { available: 100, required: 200 }));
    assert_eq!(state.get_account("Alice").unwrap().balance, 100);
    assert_eq!(state.get_account("Bob").unwrap().balance, 500);
}

#[test]
fn test_process_batch() {
    let mut state = AppState::new();
    let batch = vec![
        create("Alice", 1000),
        create("Alice", 1000),
        Instruction::transfer("Alice".to_string(), "Bob".to_string(), 100),
    ];
    let results = process_batch(&batch, &mut state);
    assert_eq!(results.len(), 3);
    assert!(results[0].is_ok());
    assert!(matches!(results[1], Err(AppError::AccountAlreadyExists(_))));
    assert!(matches!(results[2], Err(AppError::AccountNotFound(_))));
    assert_eq!(state.get_account("Alice").unwrap().balance, 1000);
}

#[test]
fn test_process_transaction_rollback() {
    let mut state = AppState::new();
    process_instruction(&create("Alice", 1000), &mut state).unwrap();
    let batch = vec![
        create("Bob", 500),
        Instruction::transfer("Alice".to_string(), "Bob".to_string(), 300),
        Instruction::transfer("Alice".to_string(), "Carol".to_string(), 10),
        create("Dan", 5),
    ];
    let r = process_transaction(&batch, &mut state);
    assert!(matches!(r, Err(AppError::AccountNotFound(ref n)) if n == "Carol"));
    assert!(!state.account_exists("Bob"));
    assert!(!state.account_exists("Dan"));
    assert_eq!(state.get_account("Alice").unwrap().balance, 1000);
    assert_eq!(state.get_account("Alice").unwrap().transaction_count, 0);
    assert_eq!(state.list_accounts(), vec!["Alice"]);
}

#[test]
fn transaction_success_keeps_changes() {
    let mut state = AppState::new();
    let batch = vec![
        create("Alice", 1000),
        create("Bob", 500),
        Instruction::transfer("Alice".to_string(), "Bob".to_string(), 200),
        Instruction::update_balance("Alice".to_string(), 300),
        Instruction::GetBalance { name: "Bob".to_string() },
    ];
    let msgs = process_transaction(&batch, &mut state).unwrap();
    assert_eq!(
        msgs,
        vec![
            "Created account 'Alice' with balance 1000",
            "Created account 'Bob' with balance 500",
            "Transferred 200 from 'Alice' to 'Bob'",
            "Added 300 to account 'Alice'",
            "Account 'Bob' balance: 700",
        ]
    );
    assert_eq!(state.get_account("Alice").unwrap().balance, 1100);
    assert!(process_transaction(&[], &mut state).unwrap().is_empty());
}

#[test]
fn delete_needs_zero_balance() {
    let mut state = AppState::new();
    process_instruction(&create("Alice", 10), &mut state).unwrap();
    let del = Instruction::DeleteAccount { name: "Alice".to_string() };
    assert!(matches!(process_instruction(&del, &mut state), Err(AppError::InvalidAmount(10))));
    assert!(state.account_exists("Alice"));

    process_instruction(&create("Bob", 1), &mut state).unwrap();
    process_instruction(&Instruction::transfer("Alice".to_string(), "Bob".to_string(), 10), &mut state)
        .unwrap();
    assert_eq!(process_instruction(&del, &mut state).unwrap(), "Deleted account 'Alice'");
    assert_eq!(state.list_accounts(), vec!["Bob"]);
    let missing = Instruction::DeleteAccount { name: "Charlie".to_string() };
    assert!(matches!(process_instruction(&missing, &mut state), Err(AppError::AccountNotFound(_))));
}

#[test]
fn shape_failures_are_typed() {
    let mut state = AppState::new();
    let r = process_instruction(
        &Instruction::transfer("Alice".to_string(), "Alice".to_string(), 5),
        &mut state,
    );
    assert!(matches!(r, Err(AppError::TransferToSelf(ref n)) if n == "Alice"));
    let r = process_instruction(&create("", 5), &mut state);
    assert!(matches!(r, Err(AppError::InvalidAccountName(_))));
    let r = process_instruction(&Instruction::update_balance("Alice".to_string(), 0), &mut state);
    assert!(matches!(r, Err(AppError::InvalidAmount(0))));
    let r = process_instruction(&Instruction::GetBalance { name: "Zed".to_string() }, &mut state);
    assert!(matches!(r, Err(AppError::AccountNotFound(_))));
    assert_eq!(state.account_count(), 0);
}

#[test]
fn dry_run_leaves_state_alone() {
    let mut state = AppState::new();
    process_instruction(&create("Alice", 10), &mut state).unwrap();
    let r = dry_run(&Instruction::update_balance("Alice".to_string(), 5), &state);
    assert_eq!(r.unwrap(), "Added 5 to account 'Alice'");
    assert_eq!(state.get_account("Alice").unwrap().balance, 10);
    assert!(dry_run(&create("Alice", 1), &state).is_err());
}

#[test]
fn update_balance_overflow_is_rejected() {
    let mut state = AppState::new();
    process_instruction(&create("Alice", u64::MAX), &mut state).unwrap();
    let r = process_instruction(&Instruction::update_balance("Alice".to_string(), 1), &mut state);
    assert!(matches!(r, Err(AppError::InvalidAmount(1))));
    assert_eq!(state.get_account("Alice").unwrap().balance, u64::MAX);
}
