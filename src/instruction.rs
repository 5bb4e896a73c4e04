//! Self-contained requests to read or change the ledger.
use vstd::prelude::*;
use vstd::string::*;
use crate::text::{decimal, decimal_string, str_eq};

verus! {

/// One intended change to the ledger, or one read of it. Each instruction
/// carries all the data it needs.
#[derive(Debug, Clone)]
pub enum Instruction {
    CreateAccount { name: String, balance: u64 },
    Transfer { from: String, to: String, amount: u64 },
    /// Adds `amount` to the balance of `name`.
    UpdateBalance { name: String, amount: u64 },
    GetBalance { name: String },
    DeleteAccount { name: String },
}

/// The summary that `Instruction::description` gives.
pub open spec fn description_of(i: Instruction) -> Seq<char> {
    match i {
        Instruction::CreateAccount { name, balance } => "Create account '"@ + name@
            + "' with initial balance of "@ + decimal(balance as nat),
        Instruction::Transfer { from, to, amount } => "Transfer "@ + decimal(amount as nat)
            + " from '"@ + from@ + "' to '"@ + to@ + "'"@,
        Instruction::UpdateBalance { name, amount } => "Update balance for '"@ + name@
            + "' by adding "@ + decimal(amount as nat),
        Instruction::GetBalance { name } => "Retrieve balance for account '"@ + name@ + "'"@,
        Instruction::DeleteAccount { name } => "Delete account '"@ + name@ + "'"@,
    }
}

/// The shape check of an instruction, independent of any ledger: names are
/// not empty, amounts are positive, and a transfer names two accounts.
pub open spec fn shape_check(i: Instruction) -> Result<(), Seq<char>> {
    match i {
        Instruction::CreateAccount { name, balance } => {
            if name@.len() == 0 {
                Err("Account name cannot be empty"@)
            } else if balance == 0 {
                Err("Initial balance must be greater than 0"@)
            } else {
                Ok(())
            }
        },
        Instruction::Transfer { from, to, amount } => {
            if from@.len() == 0 || to@.len() == 0 {
                Err("Sender and receive names can not be empty"@)
            } else if from@ == to@ {
                Err("Cannot transfer to the same account"@)
            } else if amount == 0 {
                Err("Transfer amount must be greater than 0"@)
            } else {
                Ok(())
            }
        },
        Instruction::UpdateBalance { name, amount } => {
            if name@.len() == 0 {
                Err("Account name cannot be empty"@)
            } else if amount == 0 {
                Err("Update amount must be greater than 0"@)
            } else {
                Ok(())
            }
        },
        Instruction::GetBalance { name } => {
            if name@.len() == 0 {
                Err("Account name cannot be empty"@)
            } else {
                Ok(())
            }
        },
        Instruction::DeleteAccount { name } => {
            if name@.len() == 0 {
                Err("Account name cannot be empty"@)
            } else {
                Ok(())
            }
        },
    }
}

fn empty_name() -> (r: String)
    ensures
        r@ == "Account name cannot be empty"@,
{
    String::from_str("Account name cannot be empty")
}

impl Instruction {
    /// An instruction to create `name` holding `balance`.
    pub fn create_account(name: String, balance: u64) -> (r: Instruction)
        ensures
            r == (Instruction::CreateAccount { name, balance }),
    {
        Instruction::CreateAccount { name, balance }
    }

    /// An instruction to move `amount` from `from` to `to`.
    pub fn transfer(from: String, to: String, amount: u64) -> (r: Instruction)
        ensures
            r == (Instruction::Transfer { from, to, amount }),
    {
        Instruction::Transfer { from, to, amount }
    }

    /// An instruction to add `amount` to the balance of `name`.
    pub fn update_balance(name: String, amount: u64) -> (r: Instruction)
        ensures
            r == (Instruction::UpdateBalance { name, amount }),
    {
        Instruction::UpdateBalance { name, amount }
    }

    /// A short human-readable summary.
    pub fn description(&self) -> (r: String)
        ensures
            r@ == description_of(*self),
    {
        match self {
            Instruction::CreateAccount { name, balance } => {
                let b = decimal_string(*balance);
                String::from_str("Create account '").concat(name.as_str()).concat(
                    "' with initial balance of ",
                ).concat(b.as_str())
            },
            Instruction::Transfer { from, to, amount } => {
                let a = decimal_string(*amount);
                String::from_str("Transfer ").concat(a.as_str()).concat(" from '").concat(
                    from.as_str(),
                ).concat("' to '").concat(to.as_str()).concat("'")
            },
            Instruction::UpdateBalance { name, amount } => {
                let a = decimal_string(*amount);
                String::from_str("Update balance for '").concat(name.as_str()).concat(
                    "' by adding ",
                ).concat(a.as_str())
            },
            Instruction::GetBalance { name } => String::from_str(
                "Retrieve balance for account '",
            ).concat(name.as_str()).concat("'"),
            Instruction::DeleteAccount { name } => String::from_str("Delete account '").concat(
                name.as_str(),
            ).concat("'"),
        }
    }

    /// Checks the instruction's shape, without looking at any ledger.
    pub fn validate(&self) -> (r: Result<(), String>)
        ensures
            match shape_check(*self) {
                Ok(()) => r is Ok,
                Err(m) => r is Err && r->Err_0@ == m,
            },
    {
        match self {
            Instruction::CreateAccount { name, balance } => {
                if name.as_str().is_empty() {
                    return Err(empty_name());
                }
                if *balance == 0 {
                    return Err(String::from_str("Initial balance must be greater than 0"));
                }
                Ok(())
            },
            Instruction::Transfer { from, to, amount } => {
                if from.as_str().is_empty() || to.as_str().is_empty() {
                    return Err(String::from_str("Sender and receive names can not be empty"));
                }
                if str_eq(from.as_str(), to.as_str()) {
                    return Err(String::from_str("Cannot transfer to the same account"));
                }
                if *amount == 0 {
                    return Err(String::from_str("Transfer amount must be greater than 0"));
                }
                Ok(())
            },
            Instruction::UpdateBalance { name, amount } => {
                if name.as_str().is_empty() {
                    return Err(empty_name());
                }
                if *amount == 0 {
                    return Err(String::from_str("Update amount must be greater than 0"));
                }
                Ok(())
            },
            Instruction::GetBalance { name } => {
                if name.as_str().is_empty() {
                    return Err(empty_name());
                }
                Ok(())
            },
            Instruction::DeleteAccount { name } => {
                if name.as_str().is_empty() {
                    return Err(empty_name());
                }
                Ok(())
            },
        }
    }
}

} // verus!
