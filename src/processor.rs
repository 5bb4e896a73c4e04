//! Applies instructions to a ledger: one at a time, in independent batches,
//! or as all-or-nothing transactions.
use vstd::prelude::*;
use vstd::string::*;
use crate::error::{AppError, ErrorView, outcome_view};
use crate::instruction::{Instruction, shape_check};
use crate::state::{AppState, LedgerView, create_spec, credit, delete_spec, transfer_spec};
use crate::text::{decimal, decimal_string, str_eq};

verus! {

/// The typed failure for an instruction whose shape check fails.
pub open spec fn shape_error(i: Instruction) -> ErrorView {
    match i {
        Instruction::CreateAccount { name, balance } => {
            if name@.len() == 0 {
                ErrorView::InvalidAccountName(name@)
            } else {
                ErrorView::InvalidAmount(balance)
            }
        },
        Instruction::Transfer { from, to, amount } => {
            if from@.len() == 0 {
                ErrorView::InvalidAccountName(from@)
            } else if to@.len() == 0 {
                ErrorView::InvalidAccountName(to@)
            } else if from@ == to@ {
                ErrorView::TransferToSelf(from@)
            } else {
                ErrorView::InvalidAmount(amount)
            }
        },
        Instruction::UpdateBalance { name, amount } => {
            if name@.len() == 0 {
                ErrorView::InvalidAccountName(name@)
            } else {
                ErrorView::InvalidAmount(amount)
            }
        },
        Instruction::GetBalance { name } => ErrorView::InvalidAccountName(name@),
        Instruction::DeleteAccount { name } => ErrorView::InvalidAccountName(name@),
    }
}

/// The message for a successful creation.
pub open spec fn created_message(name: Seq<char>, balance: u64) -> Seq<char> {
    "Created account '"@ + name + "' with balance "@ + decimal(balance as nat)
}

/// The message for a successful transfer.
pub open spec fn transferred_message(from: Seq<char>, to: Seq<char>, amount: u64) -> Seq<char> {
    "Transferred "@ + decimal(amount as nat) + " from '"@ + from + "' to '"@ + to + "'"@
}

/// The message for a successful credit.
pub open spec fn added_message(name: Seq<char>, amount: u64) -> Seq<char> {
    "Added "@ + decimal(amount as nat) + " to account '"@ + name + "'"@
}

/// The message that reports a balance.
pub open spec fn balance_message(name: Seq<char>, balance: u64) -> Seq<char> {
    "Account '"@ + name + "' balance: "@ + decimal(balance as nat)
}

/// The message for a successful deletion.
pub open spec fn deleted_message(name: Seq<char>) -> Seq<char> {
    "Deleted account '"@ + name + "'"@
}

/// A ledger operation's outcome, with `m` as the message on success.
pub open spec fn with_message(p: (LedgerView, Result<(), ErrorView>), m: Seq<char>) -> (
    LedgerView,
    Result<Seq<char>, ErrorView>,
) {
    (p.0, match p.1 {
        Ok(_) => Ok(m),
        Err(e) => Err(e),
    })
}

/// The outcome of adding `amount` to the balance of `name`.
pub open spec fn update_spec(l: LedgerView, name: Seq<char>, amount: u64) -> (
    LedgerView,
    Result<Seq<char>, ErrorView>,
) {
    if !l.accounts.contains_key(name) {
        (l, Err(ErrorView::AccountNotFound(name)))
    } else {
        match credit(l.accounts[name], amount) {
            Ok(v) => (
                LedgerView { accounts: l.accounts.insert(name, v), ..l },
                Ok(added_message(name, amount)),
            ),
            Err(e) => (l, Err(e)),
        }
    }
}

/// The outcome of deleting `name`, which is allowed only at a zero balance.
pub open spec fn delete_if_empty_spec(l: LedgerView, name: Seq<char>) -> (
    LedgerView,
    Result<Seq<char>, ErrorView>,
) {
    if !l.accounts.contains_key(name) {
        (l, Err(ErrorView::AccountNotFound(name)))
    } else if l.accounts[name].balance > 0 {
        (l, Err(ErrorView::InvalidAmount(l.accounts[name].balance)))
    } else {
        with_message(delete_spec(l, name), deleted_message(name))
    }
}

/// The ledger after one instruction, and the instruction's outcome.
pub open spec fn step(l: LedgerView, i: Instruction) -> (LedgerView, Result<Seq<char>, ErrorView>) {
    if shape_check(i) is Err {
        (l, Err(shape_error(i)))
    } else {
        match i {
            Instruction::CreateAccount { name, balance } => with_message(
                create_spec(l, name@, balance),
                created_message(name@, balance),
            ),
            Instruction::Transfer { from, to, amount } => with_message(
                transfer_spec(l, from@, to@, amount),
                transferred_message(from@, to@, amount),
            ),
            Instruction::UpdateBalance { name, amount } => update_spec(l, name@, amount),
            Instruction::GetBalance { name } => {
                if l.accounts.contains_key(name@) {
                    (l, Ok(balance_message(name@, l.accounts[name@].balance)))
                } else {
                    (l, Err(ErrorView::AccountNotFound(name@)))
                }
            },
            Instruction::DeleteAccount { name } => delete_if_empty_spec(l, name@),
        }
    }
}

/// Deleting a present account fails while its balance is positive and
/// leaves the ledger as it was; at a zero balance it succeeds and the name
/// is gone from the ledger.
pub proof fn lemma_delete_only_when_empty(l: LedgerView, i: Instruction)
    requires
        match i {
            Instruction::DeleteAccount { name } => name@.len() > 0 && l.accounts.contains_key(name@),
            _ => false,
        },
    ensures
        match i {
            Instruction::DeleteAccount { name } => {
                &&& l.accounts[name@].balance > 0 ==> step(l, i).1 is Err && step(l, i).0 == l
                &&& l.accounts[name@].balance == 0 ==> step(l, i).1 is Ok
                    && !step(l, i).0.accounts.contains_key(name@)
            },
            _ => true,
        },
{
}

fn shape_failure(instruction: &Instruction) -> (r: AppError)
    requires
        shape_check(*instruction) is Err,
    ensures
        r@ == shape_error(*instruction),
{
    match instruction {
        Instruction::CreateAccount { name, balance } => {
            if name.as_str().is_empty() {
                AppError::InvalidAccountName(name.clone())
            } else {
                AppError::InvalidAmount(*balance)
            }
        },
        Instruction::Transfer { from, to, amount } => {
            if from.as_str().is_empty() {
                AppError::InvalidAccountName(from.clone())
            } else if to.as_str().is_empty() {
                AppError::InvalidAccountName(to.clone())
            } else if str_eq(from.as_str(), to.as_str()) {
                AppError::TransferToSelf(from.clone())
            } else {
                AppError::InvalidAmount(*amount)
            }
        },
        Instruction::UpdateBalance { name, amount } => {
            if name.as_str().is_empty() {
                AppError::InvalidAccountName(name.clone())
            } else {
                AppError::InvalidAmount(*amount)
            }
        },
        Instruction::GetBalance { name } => AppError::InvalidAccountName(name.clone()),
        Instruction::DeleteAccount { name } => AppError::InvalidAccountName(name.clone()),
    }
}

/// Applies one instruction: checks its shape, then makes the matching ledger
/// call and reports a message on success.
pub fn process_instruction(instruction: &Instruction, state: &mut AppState) -> (r: Result<String, AppError>)
    requires
        old(state).wf(),
    ensures
        final(state).wf(),
        step(old(state)@, *instruction) == (final(state)@, outcome_view(r)),
{
    match instruction.validate() {
        Ok(()) => {},
        Err(_) => return Err(shape_failure(instruction)),
    }
    match instruction {
        Instruction::CreateAccount { name, balance } => {
            process_create_account(name.as_str(), *balance, state)
        },
        Instruction::Transfer { from, to, amount } => {
            process_transfer(from.as_str(), to.as_str(), *amount, state)
        },
        Instruction::UpdateBalance { name, amount } => {
            process_update_balance(name.as_str(), *amount, state)
        },
        Instruction::GetBalance { name } => process_get_balance(name.as_str(), state),
        Instruction::DeleteAccount { name } => process_delete_account(name.as_str(), state),
    }
}

fn process_create_account(name: &str, balance: u64, state: &mut AppState) -> (r: Result<String, AppError>)
    requires
        old(state).wf(),
    ensures
        final(state).wf(),
        with_message(create_spec(old(state)@, name@, balance), created_message(name@, balance))
            == (final(state)@, outcome_view(r)),
{
    match state.create_account(String::from_str(name), balance) {
        Ok(()) => {
            let b = decimal_string(balance);
            Ok(
                String::from_str("Created account '").concat(name).concat("' with balance ").concat(
                    b.as_str(),
                ),
            )
        },
        Err(e) => Err(e),
    }
}

fn process_transfer(from: &str, to: &str, amount: u64, state: &mut AppState) -> (r: Result<String, AppError>)
    requires
        old(state).wf(),
    ensures
        final(state).wf(),
        from@ == to@ ==> {
            &&& *final(state) == *old(state)
            &&& r is Err
            &&& r->Err_0@ == ErrorView::TransferToSelf(from@)
        },
        from@ != to@ ==> with_message(
            transfer_spec(old(state)@, from@, to@, amount),
            transferred_message(from@, to@, amount),
        ) == (final(state)@, outcome_view(r)),
{
    if str_eq(from, to) {
        return Err(AppError::TransferToSelf(String::from_str(from)));
    }
    match state.transfer(from, to, amount) {
        Ok(()) => {
            let a = decimal_string(amount);
            Ok(
                String::from_str("Transferred ").concat(a.as_str()).concat(" from '").concat(
                    from,
                ).concat("' to '").concat(to).concat("'"),
            )
        },
        Err(e) => Err(e),
    }
}

fn process_update_balance(name: &str, amount: u64, state: &mut AppState) -> (r: Result<String, AppError>)
    requires
        old(state).wf(),
    ensures
        final(state).wf(),
        update_spec(old(state)@, name@, amount) == (final(state)@, outcome_view(r)),
{
    let ghost before = state@;
    proof {
        if before.accounts.contains_key(name@) {
            assert(before.accounts.insert(name@, before.accounts[name@]) =~= before.accounts);
        }
    }
    match state.get_account_mut(name) {
        Ok(account) => {
            match account.add_balance(amount) {
                Ok(()) => {
                    let a = decimal_string(amount);
                    Ok(
                        String::from_str("Added ").concat(a.as_str()).concat(
                            " to account '",
                        ).concat(name).concat("'"),
                    )
                },
                Err(e) => Err(e),
            }
        },
        Err(e) => Err(e),
    }
}

fn process_get_balance(name: &str, state: &AppState) -> (r: Result<String, AppError>)
    requires
        state.wf(),
    ensures
        match r {
            Ok(m) => {
                &&& state@.accounts.contains_key(name@)
                &&& m@ == balance_message(name@, state@.accounts[name@].balance)
            },
            Err(e) => !state@.accounts.contains_key(name@) && e@ == ErrorView::AccountNotFound(name@),
        },
{
    match state.get_account(name) {
        Ok(account) => {
            let b = decimal_string(account.get_balance());
            Ok(String::from_str("Account '").concat(name).concat("' balance: ").concat(b.as_str()))
        },
        Err(e) => Err(e),
    }
}

fn process_delete_account(name: &str, state: &mut AppState) -> (r: Result<String, AppError>)
    requires
        old(state).wf(),
    ensures
        final(state).wf(),
        delete_if_empty_spec(old(state)@, name@) == (final(state)@, outcome_view(r)),
{
    let balance = match state.get_account(name) {
        Ok(account) => account.get_balance(),
        Err(e) => return Err(e),
    };
    if balance > 0 {
        return Err(AppError::InvalidAmount(balance));
    }
    match state.delete_account(name) {
        Ok(deleted) => Ok(String::from_str("Deleted account '").concat(deleted.name.as_str()).concat("'")),
        Err(e) => Err(e),
    }
}

/// The ledger after each instruction of `s` in turn, and every outcome, in order.
pub open spec fn run_batch(l: LedgerView, s: Seq<Instruction>) -> (
    LedgerView,
    Seq<Result<Seq<char>, ErrorView>>,
)
    decreases s.len(),
{
    if s.len() == 0 {
        (l, Seq::empty())
    } else {
        let (l1, rs) = run_batch(l, s.drop_last());
        let (l2, r) = step(l1, s.last());
        (l2, rs.push(r))
    }
}

/// Instructions of `s` applied in turn until one fails: that failure, or the
/// final ledger and every message.
pub open spec fn run_all(l: LedgerView, s: Seq<Instruction>) -> Result<
    (LedgerView, Seq<Seq<char>>),
    ErrorView,
>
    decreases s.len(),
{
    if s.len() == 0 {
        Ok((l, Seq::empty()))
    } else {
        match run_all(l, s.drop_last()) {
            Err(e) => Err(e),
            Ok((l1, ms)) => match step(l1, s.last()).1 {
                Ok(m) => Ok((step(l1, s.last()).0, ms.push(m))),
                Err(e) => Err(e),
            },
        }
    }
}

/// The views of a sequence of outcomes.
pub open spec fn outcomes(v: Seq<Result<String, AppError>>) -> Seq<Result<Seq<char>, ErrorView>> {
    v.map_values(|o: Result<String, AppError>| outcome_view(o))
}

/// The character sequences of a sequence of strings.
pub open spec fn texts(v: Seq<String>) -> Seq<Seq<char>> {
    v.map_values(|m: String| m@)
}

/// Once a prefix of the instructions fails, so does the whole sequence, with
/// the same failure.
proof fn lemma_run_all_stops(l: LedgerView, s: Seq<Instruction>, k: int)
    requires
        0 <= k <= s.len(),
        run_all(l, s.subrange(0, k)) is Err,
    ensures
        run_all(l, s) == run_all(l, s.subrange(0, k)),
    decreases s.len() - k,
{
    if k == s.len() {
        assert(s.subrange(0, k) =~= s);
    } else {
        assert(s.subrange(0, k + 1).drop_last() =~= s.subrange(0, k));
        lemma_run_all_stops(l, s, k + 1);
    }
}

/// Applies every instruction in order against the same ledger; a failure
/// neither stops nor undoes the others.
pub fn process_batch(instructions: &[Instruction], state: &mut AppState) -> (r: Vec<Result<String, AppError>>)
    requires
        old(state).wf(),
    ensures
        final(state).wf(),
        run_batch(old(state)@, instructions@).0 == final(state)@,
        run_batch(old(state)@, instructions@).1 == outcomes(r@),
{
    let ghost start = state@;
    let mut out: Vec<Result<String, AppError>> = Vec::new();
    let mut i: usize = 0;
    while i < instructions.len()
        invariant
            state.wf(),
            i <= instructions@.len(),
            run_batch(start, instructions@.subrange(0, i as int)).0 == state@,
            run_batch(start, instructions@.subrange(0, i as int)).1 == outcomes(out@),
        decreases instructions@.len() - i,
    {
        let ghost prefix = instructions@.subrange(0, i as int);
        let r = process_instruction(&instructions[i], state);
        proof {
            assert(instructions@.subrange(0, i + 1).drop_last() =~= prefix);
        }
        out.push(r);
        proof {
            assert(outcomes(out@) =~= run_batch(start, instructions@.subrange(0, i + 1)).1);
        }
        i = i + 1;
    }
    assert(instructions@.subrange(0, i as int) =~= instructions@);
    out
}

/// Applies the instructions in order, all or nothing: on the first failure
/// the ledger is put back as it was before the call and that failure is
/// returned; otherwise every message is returned and the changes stay.
pub fn process_transaction(instructions: &[Instruction], state: &mut AppState) -> (r: Result<
    Vec<String>,
    AppError,
>)
    requires
        old(state).wf(),
    ensures
        final(state).wf(),
        r is Ok ==> run_all(old(state)@, instructions@) == Ok::<(LedgerView, Seq<Seq<char>>), ErrorView>(
            (final(state)@, texts(r->Ok_0@)),
        ),
        r is Err ==> run_all(old(state)@, instructions@) == Err::<(LedgerView, Seq<Seq<char>>), ErrorView>(
            r->Err_0@,
        ),
        r is Err ==> final(state)@ == old(state)@,
        r is Err ==> final(state).total() == old(state).total(),
{
    let original = state.clone();
    let ghost start = state@;
    let mut messages: Vec<String> = Vec::new();
    let mut i: usize = 0;
    assert(instructions@.subrange(0, 0) =~= Seq::<Instruction>::empty());
    assert(texts(messages@) =~= Seq::<Seq<char>>::empty());
    while i < instructions.len()
        invariant
            state.wf(),
            original.wf(),
            original@ == start,
            start == old(state)@,
            original.total() == old(state).total(),
            i <= instructions@.len(),
            run_all(start, instructions@.subrange(0, i as int)) == Ok::<
                (LedgerView, Seq<Seq<char>>),
                ErrorView,
            >((state@, texts(messages@))),
        decreases instructions@.len() - i,
    {
        let ghost prefix = instructions@.subrange(0, i as int);
        proof {
            assert(instructions@.subrange(0, i + 1).drop_last() =~= prefix);
        }
        match process_instruction(&instructions[i], state) {
            Ok(m) => {
                let ghost before = messages@;
                messages.push(m);
                proof {
                    assert(texts(messages@) =~= texts(before).push(m@));
                }
            },
            Err(e) => {
                proof {
                    assert(instructions@.subrange(0, i + 1).last() == instructions@[i as int]);
                    lemma_run_all_stops(start, instructions@, i + 1);
                }
                *state = original;
                return Err(e);
            },
        }
        i = i + 1;
    }
    assert(instructions@.subrange(0, i as int) =~= instructions@);
    Ok(messages)
}

/// The outcome that `process_instruction` would have, computed on a copy so
/// that `state` is left as it is.
pub fn dry_run(instruction: &Instruction, state: &AppState) -> (r: Result<String, AppError>)
    requires
        state.wf(),
    ensures
        outcome_view(r) == step(state@, *instruction).1,
{
    let mut copy = state.clone();
    process_instruction(instruction, &mut copy)
}

} // verus!
