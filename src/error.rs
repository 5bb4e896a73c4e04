//! The failures that ledger operations report, with their codes and messages.
use vstd::prelude::*;
use vstd::string::*;
use crate::text::{decimal, decimal_string};

verus! {

/// A failure of a ledger operation.
#[derive(Debug, Clone, PartialEq)]
pub enum AppError {
    /// No account has the given name.
    AccountNotFound(String),
    /// An account with the given name is already present.
    AccountAlreadyExists(String),
    /// A debit asked for more than the account holds.
    InsufficientBalance { available: u64, required: u64 },
    /// An amount that is zero, or that the operation cannot apply.
    InvalidAmount(u64),
    /// A name that is too short once surrounding whitespace is removed.
    InvalidAccountName(String),
    /// A transfer whose source and destination are the same account.
    TransferToSelf(String),
}

/// What an `AppError` says, with names as character sequences.
pub enum ErrorView {
    AccountNotFound(Seq<char>),
    AccountAlreadyExists(Seq<char>),
    InsufficientBalance { available: u64, required: u64 },
    InvalidAmount(u64),
    InvalidAccountName(Seq<char>),
    TransferToSelf(Seq<char>),
}

impl View for AppError {
    type V = ErrorView;

    open spec fn view(&self) -> ErrorView {
        match self {
            AppError::AccountNotFound(n) => ErrorView::AccountNotFound(n@),
            AppError::AccountAlreadyExists(n) => ErrorView::AccountAlreadyExists(n@),
            AppError::InsufficientBalance { available, required } => ErrorView::InsufficientBalance {
                available: *available,
                required: *required,
            },
            AppError::InvalidAmount(a) => ErrorView::InvalidAmount(*a),
            AppError::InvalidAccountName(n) => ErrorView::InvalidAccountName(n@),
            AppError::TransferToSelf(n) => ErrorView::TransferToSelf(n@),
        }
    }
}

/// The view of an outcome that carries a message on success.
pub open spec fn outcome_view(r: Result<String, AppError>) -> Result<Seq<char>, ErrorView> {
    match r {
        Ok(m) => Ok(m@),
        Err(e) => Err(e@),
    }
}

/// The view of an outcome that carries nothing on success.
pub open spec fn unit_view(r: Result<(), AppError>) -> Result<(), ErrorView> {
    match r {
        Ok(_) => Ok(()),
        Err(e) => Err(e@),
    }
}

/// The short code that identifies each kind of failure in logs.
pub open spec fn code_of(e: ErrorView) -> Seq<char> {
    match e {
        ErrorView::AccountNotFound(_) => "ACC_001"@,
        ErrorView::AccountAlreadyExists(_) => "ACC_002"@,
        ErrorView::InsufficientBalance { .. } => "BAL_001"@,
        ErrorView::InvalidAmount(_) => "VAL_001"@,
        ErrorView::InvalidAccountName(_) => "VAL_002"@,
        ErrorView::TransferToSelf(_) => "TX_001"@,
    }
}

/// Whether a caller can plausibly retry or work around the failure.
pub open spec fn recoverable(e: ErrorView) -> bool {
    match e {
        ErrorView::InsufficientBalance { .. } => true,
        ErrorView::AccountNotFound(_) => true,
        _ => false,
    }
}

/// The human-readable text of a failure.
pub open spec fn message_of(e: ErrorView) -> Seq<char> {
    match e {
        ErrorView::AccountNotFound(n) => "Account not found: "@ + n,
        ErrorView::AccountAlreadyExists(n) => "Account already exists "@ + n,
        ErrorView::InsufficientBalance { available, required } => "Insufficent balance. Available: "@
            + decimal(available as nat) + ", Required: "@ + decimal(required as nat),
        ErrorView::InvalidAmount(a) => "Amount invalid "@ + decimal(a as nat),
        ErrorView::InvalidAccountName(n) => "Account invalid "@ + n,
        ErrorView::TransferToSelf(n) => "Cannot transfer to self. Account: "@ + n,
    }
}

/// What `str::trim` leaves of `s`.
pub uninterp spec fn trimmed(s: Seq<char>) -> Seq<char>;

/// Whether `name` is acceptable as an account name: at least two characters
/// remain once leading and trailing whitespace is removed.
pub open spec fn name_ok(name: Seq<char>) -> bool {
    trimmed(name).len() >= 2
}

/// Relies on `str::trim`: removes leading and trailing whitespace, and the
/// result depends on the characters of `s` alone.
#[verifier::external_body]
fn trim_str(s: &str) -> (r: &str)
    ensures
        r@ == trimmed(s@),
{
    s.trim()
}

impl AppError {
    /// Accepts `name` when `trimmed`, the name without surrounding whitespace,
    /// holds at least two characters.
    pub fn check_trimmed_name(name: &str, trimmed: &str) -> (r: Result<(), AppError>)
        ensures
            r.is_ok() <==> trimmed@.len() >= 2,
            r is Err ==> r->Err_0@ == ErrorView::InvalidAccountName(name@),
    {
        if trimmed.unicode_len() < 2 {
            return Err(AppError::InvalidAccountName(String::from_str(name)));
        }
        Ok(())
    }

    /// Checks that an account name is acceptable.
    pub fn validate_account_name(name: &str) -> (r: Result<(), AppError>)
        ensures
            r.is_ok() <==> name_ok(name@),
            r is Err ==> r->Err_0@ == ErrorView::InvalidAccountName(name@),
    {
        let t = trim_str(name);
        AppError::check_trimmed_name(name, t)
    }

    /// Checks that an amount is positive.
    pub fn validate_amount(amount: u64) -> (r: Result<(), AppError>)
        ensures
            r.is_ok() <==> amount > 0,
            r is Err ==> r->Err_0@ == ErrorView::InvalidAmount(amount),
    {
        if amount == 0 {
            return Err(AppError::InvalidAmount(amount));
        }
        Ok(())
    }

    /// The failure of a debit of `required` from an account that holds `available`.
    pub fn insufficient_balance(available: u64, required: u64) -> (r: AppError)
        ensures
            r@ == (ErrorView::InsufficientBalance { available, required }),
    {
        AppError::InsufficientBalance { available, required }
    }

    /// The short code of this failure.
    pub fn code(&self) -> (r: &str)
        ensures
            r@ == code_of(self@),
    {
        match self {
            AppError::AccountNotFound(_) => "ACC_001",
            AppError::AccountAlreadyExists(_) => "ACC_002",
            AppError::InsufficientBalance { .. } => "BAL_001",
            AppError::InvalidAmount(_) => "VAL_001",
            AppError::InvalidAccountName(_) => "VAL_002",
            AppError::TransferToSelf(_) => "TX_001",
        }
    }

    /// Whether the failure is one a caller can retry or work around.
    pub fn is_recoverable(&self) -> (r: bool)
        ensures
            r == recoverable(self@),
    {
        match self {
            AppError::InsufficientBalance { .. } => true,
            AppError::AccountNotFound(_) => true,
            _ => false,
        }
    }

    /// The human-readable text of this failure.
    pub fn message(&self) -> (r: String)
        ensures
            r@ == message_of(self@),
    {
        match self {
            AppError::AccountNotFound(n) => String::from_str("Account not found: ").concat(n.as_str()),
            AppError::AccountAlreadyExists(n) => String::from_str("Account already exists ").concat(
                n.as_str(),
            ),
            AppError::InsufficientBalance { available, required } => {
                let a = decimal_string(*available);
                let q = decimal_string(*required);
                String::from_str("Insufficent balance. Available: ").concat(a.as_str()).concat(
                    ", Required: ",
                ).concat(q.as_str())
            },
            AppError::InvalidAmount(a) => {
                let d = decimal_string(*a);
                String::from_str("Amount invalid ").concat(d.as_str())
            },
            AppError::InvalidAccountName(n) => String::from_str("Account invalid ").concat(n.as_str()),
            AppError::TransferToSelf(n) => String::from_str(
                "Cannot transfer to self. Account: ",
            ).concat(n.as_str()),
        }
    }
}

} // verus!
