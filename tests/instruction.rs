use ledger::instruction::Instruction;

#[test]
fn test_create_account_instruction() {
    let name = "Alice".to_string();
    let balance = 100;
    let inst = Instruction::create_account(name.clone(), balance);

    if let Instruction::CreateAccount { name: inst_name, balance: inst_balance } = inst {
        assert_eq!(inst_name, name);
        assert_eq!(inst_balance, balance);
    } else {
        panic!("Instruction was not CreateAccount")
    }
}

#[test]
fn test_transfer_instruction() {
    let from = "Alice".to_string();
    let to = "Bob".to_string();
    let amount = 50;
    let inst = Instruction::transfer(from.clone(), to.clone(), amount);

    if let Instruction::Transfer { from: f, to: t, amount: a } = inst {
        assert_eq!(f, from);
        assert_eq!(t, to);
        assert_eq!(a, amount);
    } else {
        panic!("Instruction was not Transfer")
    }
}

#[test]
fn test_validation() {
    let valid = Instruction::create_account("Alice".to_string(), 100);
    assert!(valid.validate().is_ok());

    let empty_name = Instruction::create_account("".to_string(), 50);
    assert!(empty_name.validate().is_err());
    assert_eq!(empty_name.validate().unwrap_err(), "Account name cannot be empty");

    let zero_amount = Instruction::update_balance("Alice".to_string(), 0);
    assert!(zero_amount.validate().is_err());
    assert_eq!(zero_amount.validate().unwrap_err(), "Update amount must be greater than 0");

    let self_transfer = Instruction::transfer("Alice".to_string(), "Alice".to_string(), 100);
    assert!(self_transfer.validate().is_err());
}

#[test]
fn validation_messages_for_each_variant() {
    assert_eq!(
        Instruction::create_account("Alice".to_string(), 0).validate().unwrap_err(),
        "Initial balance must be greater than 0"
    );
    assert_eq!(
        Instruction::transfer("".to_string(), "Bob".to_string(), 5).validate().unwrap_err(),
        "Sender and receive names can not be empty"
    );
    assert_eq!(
        Instruction::transfer("Alice".to_string(), "Alice".to_string(), 5).validate().unwrap_err(),
        "Cannot transfer to the same account"
    );
    assert_eq!(
        Instruction::transfer("Alice".to_string(), "Bob".to_string(), 0).validate().unwrap_err(),
        "Transfer amount must be greater than 0"
    );
    assert_eq!(
        Instruction::GetBalance { name: "".to_string() }.validate().unwrap_err(),
        "Account name cannot be empty"
    );
    assert!(Instruction::DeleteAccount { name: "Bob".to_string() }.validate().is_ok());
    assert!(Instruction::update_balance("Bob".to_string(), 1).validate().is_ok());
}

#[test]
fn descriptions() {
    assert_eq!(
        Instruction::create_account("Alice".to_string(), 1000).description(),
        "Create account 'Alice' with initial balance of 1000"
    );
    assert_eq!(
        Instruction::transfer("Alice".to_string(), "Bob".to_string(), 200).description(),
        "Transfer 200 from 'Alice' to 'Bob'"
    );
    assert_eq!(
        Instruction::update_balance("Alice".to_string(), 300).description(),
        "Update balance for 'Alice' by adding 300"
    );
    assert_eq!(
        Instruction::GetBalance { name: "Bob".to_string() }.description(),
        "Retrieve balance for account 'Bob'"
    );
    assert_eq!(
        Instruction::DeleteAccount { name: "Charlie".to_string() }.description(),
        "Delete account 'Charlie'"
    );
}
