//! Accounts and the ledger that owns them.
use vstd::prelude::*;
use vstd::string::*;
use crate::error::{AppError, ErrorView, name_ok};
use crate::text::{
    decimal, decimal_string, lemma_lex_total, lemma_lex_transitive, less_than, lex_lt, str_eq,
};

verus! {

/// A counter that advances by one, and stays put at its largest value.
pub open spec fn bump32(c: u32) -> u32 {
    if c < u32::MAX { (c + 1) as u32 } else { c }
}

/// A counter that advances by one, and stays put at its largest value.
pub open spec fn bump64(c: u64) -> u64 {
    if c < u64::MAX { (c + 1) as u64 } else { c }
}

/// A single balance-bearing account.
#[derive(Debug, PartialEq)]
pub struct Account {
    pub name: String,
    pub balance: u64,
    /// Seconds since the Unix epoch when the account was made; informational only.
    pub created_at: u64,
    /// Number of successful balance changes on this account.
    pub transaction_count: u32,
}

/// What the ledger's rules read of an account.
pub struct AccountView {
    pub balance: u64,
    pub transaction_count: u32,
}

impl View for Account {
    type V = AccountView;

    open spec fn view(&self) -> AccountView {
        AccountView { balance: self.balance, transaction_count: self.transaction_count }
    }
}

/// The outcome of adding `amount` to an account: it fails when the sum does
/// not fit in a `u64`.
pub open spec fn credit(a: AccountView, amount: u64) -> Result<AccountView, ErrorView> {
    if a.balance + amount > u64::MAX {
        Err(ErrorView::InvalidAmount(amount))
    } else {
        Ok(
            AccountView {
                balance: (a.balance + amount) as u64,
                transaction_count: bump32(a.transaction_count),
            },
        )
    }
}

/// The outcome of taking `amount` from an account: it fails when the account
/// holds less.
pub open spec fn debit(a: AccountView, amount: u64) -> Result<AccountView, ErrorView> {
    if amount > a.balance {
        Err(ErrorView::InsufficientBalance { available: a.balance, required: amount })
    } else {
        Ok(
            AccountView {
                balance: (a.balance - amount) as u64,
                transaction_count: bump32(a.transaction_count),
            },
        )
    }
}

/// The text that `Account::info` gives.
pub open spec fn info_text(name: Seq<char>, balance: u64, count: u32) -> Seq<char> {
    "Account(name: "@ + name + ", balance: "@ + decimal(balance as nat) + ", transactions: "@
        + decimal(count as nat) + ")"@
}

/// Relies on `SystemTime::now` and `duration_since(UNIX_EPOCH)`: whole seconds
/// since the epoch, or 0 when the clock is set before it. Nothing is promised
/// of the value.
#[verifier::external_body]
fn now_secs() -> (r: u64) {
    std::time::SystemTime::now().duration_since(std::time::UNIX_EPOCH).unwrap_or_default().as_secs()
}

impl Clone for Account {
    fn clone(&self) -> (r: Self)
        ensures
            r == *self,
    {
        Account {
            name: self.name.clone(),
            balance: self.balance,
            created_at: self.created_at,
            transaction_count: self.transaction_count,
        }
    }
}

impl Account {
    /// A new account with no recorded changes, stamped with the current time.
    pub fn new(name: String, balance: u64) -> (r: Account)
        ensures
            r.name == name,
            r.balance == balance,
            r.transaction_count == 0,
    {
        let created_at = now_secs();
        Account { name, balance, created_at, transaction_count: 0 }
    }

    /// Adds `amount`; fails with `InvalidAmount(amount)`, leaving the account
    /// unchanged, when the balance would not fit in a `u64`.
    pub fn add_balance(&mut self, amount: u64) -> (r: Result<(), AppError>)
        ensures
            final(self).name == old(self).name,
            final(self).created_at == old(self).created_at,
            match credit(old(self)@, amount) {
                Ok(v) => r is Ok && final(self)@ == v,
                Err(e) => r is Err && r->Err_0@ == e && *final(self) == *old(self),
            },
    {
        if self.balance > u64::MAX - amount {
            return Err(AppError::InvalidAmount(amount));
        }
        self.balance = self.balance + amount;
        if self.transaction_count < u32::MAX {
            self.transaction_count = self.transaction_count + 1;
        }
        Ok(())
    }

    /// Takes `amount`; fails with `InsufficientBalance`, leaving the account
    /// unchanged, when the balance is smaller.
    pub fn subtract_balance(&mut self, amount: u64) -> (r: Result<(), AppError>)
        ensures
            final(self).name == old(self).name,
            final(self).created_at == old(self).created_at,
            match debit(old(self)@, amount) {
                Ok(v) => r is Ok && final(self)@ == v,
                Err(e) => r is Err && r->Err_0@ == e && *final(self) == *old(self),
            },
    {
        if self.balance < amount {
            return Err(AppError::insufficient_balance(self.balance, amount));
        }
        self.balance = self.balance - amount;
        if self.transaction_count < u32::MAX {
            self.transaction_count = self.transaction_count + 1;
        }
        Ok(())
    }

    /// The current balance.
    pub fn get_balance(&self) -> (r: u64)
        ensures
            r == self.balance,
    {
        self.balance
    }

    /// Whether the balance covers `amount`.
    pub fn has_sufficient_balance(&self, amount: u64) -> (r: bool)
        ensures
            r == (self.balance >= amount),
    {
        self.balance >= amount
    }

    /// A one-line summary of the account.
    pub fn info(&self) -> (r: String)
        ensures
            r@ == info_text(self.name@, self.balance, self.transaction_count),
    {
        let b = decimal_string(self.balance);
        let c = decimal_string(self.transaction_count as u64);
        let r = String::from_str("Account(name: ").concat(self.name.as_str()).concat(
            ", balance: ",
        ).concat(b.as_str()).concat(", transactions: ").concat(c.as_str()).concat(")");
        r
    }
}

/// What the ledger holds, as its rules see it.
pub struct LedgerView {
    /// Each account by its name.
    pub accounts: Map<Seq<char>, AccountView>,
    /// Ledger-level changes made so far: creations, deletions and transfers.
    pub total_transactions: u64,
}

/// The names of a sequence of accounts, in order.
pub open spec fn names_of(s: Seq<Account>) -> Seq<Seq<char>> {
    s.map_values(|a: Account| a.name@)
}

/// The accounts of `s` by name.
pub open spec fn map_of(s: Seq<Account>) -> Map<Seq<char>, AccountView> {
    Map::new(|k: Seq<char>| names_of(s).contains(k), |k: Seq<char>| s[names_of(s).index_of(k)]@)
}

/// The sum of the balances in `s`.
pub open spec fn balance_sum(s: Seq<Account>) -> nat
    decreases s.len(),
{
    if s.len() == 0 {
        0
    } else {
        balance_sum(s.drop_last()) + s.last().balance as nat
    }
}

proof fn lemma_map_at(s: Seq<Account>, i: int)
    requires
        names_of(s).no_duplicates(),
        0 <= i < s.len(),
    ensures
        map_of(s).contains_key(s[i].name@),
        map_of(s)[s[i].name@] == s[i]@,
{
    let n = names_of(s);
    assert(n[i] == s[i].name@);
    assert(n.contains(s[i].name@));
    let j = n.index_of(s[i].name@);
    assert(n[j] == n[i]);
}

proof fn lemma_map_update(s: Seq<Account>, i: int, a: Account)
    requires
        names_of(s).no_duplicates(),
        0 <= i < s.len(),
        a.name@ == s[i].name@,
    ensures
        names_of(s.update(i, a)) == names_of(s),
        map_of(s.update(i, a)) == map_of(s).insert(a.name@, a@),
{
    let t = s.update(i, a);
    assert(names_of(t) =~= names_of(s));
    assert forall|k: Seq<char>| #[trigger] map_of(t).contains_key(k) implies map_of(t)[k]
        == map_of(s).insert(a.name@, a@)[k] by {
        let j = choose|j: int| 0 <= j < t.len() && names_of(t)[j] == k;
        lemma_map_at(t, j);
        lemma_map_at(s, j);
        assert(names_of(t)[j] == t[j].name@);
        if j != i {
            assert(names_of(s)[j] != names_of(s)[i]);
            assert(t[j] == s[j]);
        }
    }
    lemma_map_at(s, i);
    assert(map_of(t).dom() =~= map_of(s).insert(a.name@, a@).dom());
    assert(map_of(t) =~= map_of(s).insert(a.name@, a@));
}

proof fn lemma_map_push(s: Seq<Account>, a: Account)
    requires
        names_of(s).no_duplicates(),
        !map_of(s).contains_key(a.name@),
    ensures
        names_of(s.push(a)).no_duplicates(),
        map_of(s.push(a)) == map_of(s).insert(a.name@, a@),
{
    let t = s.push(a);
    assert(names_of(t) =~= names_of(s).push(a.name@));
    assert forall|x: int, y: int| 0 <= x < t.len() && 0 <= y < t.len() && x != y implies names_of(
        t,
    )[x] != names_of(t)[y] by {
        if x < s.len() && y < s.len() {
            assert(names_of(s)[x] != names_of(s)[y]);
        } else if x < s.len() {
            assert(names_of(s)[x] == s[x].name@);
        } else {
            assert(names_of(s)[y] == s[y].name@);
        }
    }
    assert forall|k: Seq<char>| #[trigger] map_of(t).contains_key(k) implies map_of(t)[k]
        == map_of(s).insert(a.name@, a@)[k] by {
        let j = choose|j: int| 0 <= j < t.len() && names_of(t)[j] == k;
        lemma_map_at(t, j);
        if j < s.len() {
            lemma_map_at(s, j);
        }
    }
    assert forall|k: Seq<char>| #[trigger] map_of(s).insert(a.name@, a@).contains_key(k)
        implies map_of(t).contains_key(k) by {
        if k == a.name@ {
            lemma_map_at(t, s.len() as int);
        } else {
            let j = choose|j: int| 0 <= j < s.len() && names_of(s)[j] == k;
            lemma_map_at(t, j);
        }
    }
    assert(map_of(t) =~= map_of(s).insert(a.name@, a@));
}

proof fn lemma_map_remove(s: Seq<Account>, i: int)
    requires
        names_of(s).no_duplicates(),
        0 <= i < s.len(),
    ensures
        names_of(s.remove(i)).no_duplicates(),
        map_of(s.remove(i)) == map_of(s).remove(s[i].name@),
{
    let t = s.remove(i);
    let n = names_of(s);
    assert(names_of(t) =~= n.remove(i));
    assert forall|k: Seq<char>| #[trigger] map_of(t).contains_key(k) implies map_of(s).remove(
        s[i].name@,
    ).contains_key(k) && map_of(t)[k] == map_of(s)[k] by {
        let j = choose|j: int| 0 <= j < t.len() && names_of(t)[j] == k;
        lemma_map_at(t, j);
        if j < i {
            lemma_map_at(s, j);
            assert(n[j] != n[i]);
        } else {
            lemma_map_at(s, j + 1);
            assert(n[j + 1] != n[i]);
        }
    }
    assert forall|k: Seq<char>| #[trigger] map_of(s).remove(s[i].name@).contains_key(k)
        implies map_of(t).contains_key(k) by {
        let j = choose|j: int| 0 <= j < s.len() && n[j] == k;
        if j < i {
            assert(names_of(t)[j] == k);
        } else {
            assert(j != i);
            assert(names_of(t)[j - 1] == k);
        }
    }
    assert(map_of(t) =~= map_of(s).remove(s[i].name@));
}

proof fn lemma_map_len(s: Seq<Account>)
    requires
        names_of(s).no_duplicates(),
    ensures
        map_of(s).dom().len() == s.len(),
{
    assert(map_of(s).dom() =~= names_of(s).to_set());
    names_of(s).unique_seq_to_set();
}

proof fn lemma_sum_update(s: Seq<Account>, i: int, a: Account)
    requires
        0 <= i < s.len(),
    ensures
        balance_sum(s.update(i, a)) == balance_sum(s) - s[i].balance + a.balance,
    decreases s.len(),
{
    let t = s.update(i, a);
    if i < s.len() - 1 {
        lemma_sum_update(s.drop_last(), i, a);
        assert(t.drop_last() =~= s.drop_last().update(i, a));
    } else {
        assert(t.drop_last() =~= s.drop_last());
    }
}

/// The ledger: every account by its unique name, and the count of
/// ledger-level changes.
#[derive(Debug)]
pub struct AppState {
    accounts: Vec<Account>,
    total_transactions: u64,
}

impl View for AppState {
    type V = LedgerView;

    closed spec fn view(&self) -> LedgerView {
        LedgerView { accounts: map_of(self.accounts@), total_transactions: self.total_transactions }
    }
}

impl Clone for AppState {
    fn clone(&self) -> (r: Self)
        ensures
            r@ == self@,
            r.wf() == self.wf(),
            r.total() == self.total(),
    {
        let accounts = self.accounts.clone();
        assert(accounts@ =~= self.accounts@);
        AppState { accounts, total_transactions: self.total_transactions }
    }
}

/// The outcome of creating an account: the name must be acceptable, the
/// balance positive, and the name not yet taken.
pub open spec fn create_spec(l: LedgerView, name: Seq<char>, balance: u64) -> (
    LedgerView,
    Result<(), ErrorView>,
) {
    if !name_ok(name) {
        (l, Err(ErrorView::InvalidAccountName(name)))
    } else if balance == 0 {
        (l, Err(ErrorView::InvalidAmount(balance)))
    } else if l.accounts.contains_key(name) {
        (l, Err(ErrorView::AccountAlreadyExists(name)))
    } else {
        (
            LedgerView {
                accounts: l.accounts.insert(name, AccountView { balance, transaction_count: 0 }),
                total_transactions: bump64(l.total_transactions),
            },
            Ok(()),
        )
    }
}

/// The outcome of deleting an account: it must be present.
pub open spec fn delete_spec(l: LedgerView, name: Seq<char>) -> (LedgerView, Result<(), ErrorView>) {
    if !l.accounts.contains_key(name) {
        (l, Err(ErrorView::AccountNotFound(name)))
    } else {
        (
            LedgerView {
                accounts: l.accounts.remove(name),
                total_transactions: bump64(l.total_transactions),
            },
            Ok(()),
        )
    }
}

/// The outcome of moving `amount` from `from` to `to`. Every check is made
/// before any balance changes, so a failed transfer changes nothing.
pub open spec fn transfer_spec(l: LedgerView, from: Seq<char>, to: Seq<char>, amount: u64) -> (
    LedgerView,
    Result<(), ErrorView>,
) {
    if from == to {
        (l, Err(ErrorView::InvalidAmount(amount)))
    } else if amount == 0 {
        (l, Err(ErrorView::InvalidAmount(amount)))
    } else if !l.accounts.contains_key(from) {
        (l, Err(ErrorView::AccountNotFound(from)))
    } else if amount > l.accounts[from].balance {
        (
            l,
            Err(
                ErrorView::InsufficientBalance {
                    available: l.accounts[from].balance,
                    required: amount,
                },
            ),
        )
    } else if !l.accounts.contains_key(to) {
        (l, Err(ErrorView::AccountNotFound(to)))
    } else if l.accounts[to].balance + amount > u64::MAX {
        (l, Err(ErrorView::InvalidAmount(amount)))
    } else {
        (
            LedgerView {
                accounts: l.accounts.insert(from, debit(l.accounts[from], amount)->Ok_0).insert(
                    to,
                    credit(l.accounts[to], amount)->Ok_0,
                ),
                total_transactions: bump64(l.total_transactions),
            },
            Ok(()),
        )
    }
}

proof fn lemma_sum_prefix(s: Seq<Account>, i: int)
    requires
        0 <= i < s.len(),
    ensures
        balance_sum(s.subrange(0, i + 1)) == balance_sum(s.subrange(0, i)) + s[i].balance,
        balance_sum(s.subrange(0, i + 1)) <= balance_sum(s),
    decreases s.len(),
{
    assert(s.subrange(0, i + 1).drop_last() =~= s.subrange(0, i));
    if i + 1 < s.len() {
        lemma_sum_prefix(s.drop_last(), i);
        assert(s.drop_last().subrange(0, i + 1) =~= s.subrange(0, i + 1));
        assert(s.drop_last().subrange(0, i) =~= s.subrange(0, i));
    } else {
        assert(s.subrange(0, i + 1) =~= s);
    }
}

impl AppState {
    /// The account names, no two alike.
    pub closed spec fn wf(&self) -> bool {
        names_of(self.accounts@).no_duplicates()
    }

    /// The sum of all balances.
    pub closed spec fn total(&self) -> nat {
        balance_sum(self.accounts@)
    }

    /// An empty ledger.
    pub fn new() -> (r: AppState)
        ensures
            r.wf(),
            r@.accounts == Map::<Seq<char>, AccountView>::empty(),
            r@.total_transactions == 0,
            r.total() == 0,
    {
        let r = AppState { accounts: Vec::new(), total_transactions: 0 };
        assert(map_of(r.accounts@) =~= Map::<Seq<char>, AccountView>::empty());
        r
    }

    fn find(&self, name: &str) -> (r: Option<usize>)
        requires
            self.wf(),
        ensures
            match r {
                Some(i) => i < self.accounts@.len() && self.accounts@[i as int].name@ == name@,
                None => !self@.accounts.contains_key(name@),
            },
    {
        let mut i: usize = 0;
        while i < self.accounts.len()
            invariant
                i <= self.accounts@.len(),
                forall|j: int| 0 <= j < i ==> self.accounts@[j].name@ != name@,
            decreases self.accounts@.len() - i,
        {
            if str_eq(self.accounts[i].name.as_str(), name) {
                return Some(i);
            }
            i = i + 1;
        }
        proof {
            if map_of(self.accounts@).contains_key(name@) {
                let j = choose|j: int| 0 <= j < self.accounts@.len() && names_of(self.accounts@)[j] == name@;
                assert(self.accounts@[j].name@ == name@);
            }
        }
        None
    }

    /// Adds an account named `name` holding `balance`.
    pub fn create_account(&mut self, name: String, balance: u64) -> (r: Result<(), AppError>)
        requires
            old(self).wf(),
        ensures
            final(self).wf(),
            create_spec(old(self)@, name@, balance) == (final(self)@, crate::error::unit_view(r)),
            final(self).total() == old(self).total() + (if r is Ok { balance as nat } else { 0 }),
    {
        match AppError::validate_account_name(name.as_str()) {
            Ok(()) => {},
            Err(e) => return Err(e),
        }
        match AppError::validate_amount(balance) {
            Ok(()) => {},
            Err(e) => return Err(e),
        }
        if self.find(name.as_str()).is_some() {
            proof {
                let i = choose|i: int| 0 <= i < self.accounts@.len() && self.accounts@[i].name@ == name@;
                lemma_map_at(self.accounts@, i);
            }
            return Err(AppError::AccountAlreadyExists(name));
        }
        let account = Account::new(name.clone(), balance);
        proof {
            lemma_map_push(self.accounts@, account);
            assert(self.accounts@.push(account).drop_last() =~= self.accounts@);
        }
        self.accounts.push(account);
        if self.total_transactions < u64::MAX {
            self.total_transactions = self.total_transactions + 1;
        }
        Ok(())
    }

    /// The account named `name`.
    pub fn get_account(&self, name: &str) -> (r: Result<&Account, AppError>)
        requires
            self.wf(),
        ensures
            match r {
                Ok(a) => {
                    &&& self@.accounts.contains_key(name@)
                    &&& a.name@ == name@
                    &&& a@ == self@.accounts[name@]
                },
                Err(e) => !self@.accounts.contains_key(name@) && e@ == ErrorView::AccountNotFound(name@),
            },
    {
        match self.find(name) {
            Some(i) => {
                proof { lemma_map_at(self.accounts@, i as int); }
                Ok(&self.accounts[i])
            },
            None => Err(AppError::AccountNotFound(String::from_str(name))),
        }
    }

    /// Whether an account named `name` is present.
    pub fn account_exists(&self, name: &str) -> (r: bool)
        requires
            self.wf(),
        ensures
            r == self@.accounts.contains_key(name@),
    {
        match self.find(name) {
            Some(i) => {
                proof { lemma_map_at(self.accounts@, i as int); }
                true
            },
            None => false,
        }
    }

    /// Exclusive access to the account named `name`. The ledger stays well
    /// formed as long as the caller keeps the account's name.
    pub fn get_account_mut(&mut self, name: &str) -> (r: Result<&mut Account, AppError>)
        requires
            old(self).wf(),
        ensures
            match r {
                Ok(a) => {
                    &&& old(self)@.accounts.contains_key(name@)
                    &&& a.name@ == name@
                    &&& a@ == old(self)@.accounts[name@]
                    &&& final(a).name@ == name@ ==> {
                        &&& final(self).wf()
                        &&& final(self)@ == LedgerView {
                            accounts: old(self)@.accounts.insert(name@, final(a)@),
                            total_transactions: old(self)@.total_transactions,
                        }
                        &&& final(self).total() == old(self).total() - a.balance + final(a).balance
                    }
                },
                Err(e) => {
                    &&& !old(self)@.accounts.contains_key(name@)
                    &&& e@ == ErrorView::AccountNotFound(name@)
                    &&& *final(self) == *old(self)
                },
            },
    {
        match self.find(name) {
            Some(i) => {
                let ghost before = self.accounts@;
                proof {
                    lemma_map_at(before, i as int);
                }
                proof {
                    assert forall|b: Account| b.name@ == name@ implies #[trigger] map_of(
                        before.update(i as int, b),
                    ) == map_of(before).insert(name@, b@) by {
                        lemma_map_update(before, i as int, b);
                    }
                    assert forall|b: Account| b.name@ == name@ implies (#[trigger] names_of(
                        before.update(i as int, b),
                    )).no_duplicates() by {
                        lemma_map_update(before, i as int, b);
                    }
                    assert forall|b: Account| #[trigger] balance_sum(before.update(i as int, b))
                        == balance_sum(before) - before[i as int].balance + b.balance by {
                        lemma_sum_update(before, i as int, b);
                    }
                }
                Ok(&mut self.accounts[i])
            },
            None => Err(AppError::AccountNotFound(String::from_str(name))),
        }
    }

    /// Removes the account named `name` and hands it back. This primitive does
    /// not look at the balance.
    pub fn delete_account(&mut self, name: &str) -> (r: Result<Account, AppError>)
        requires
            old(self).wf(),
        ensures
            final(self).wf(),
            delete_spec(old(self)@, name@) == (final(self)@, match r {
                Ok(_) => Ok(()),
                Err(e) => Err(e@),
            }),
            r is Ok ==> r->Ok_0.name@ == name@ && r->Ok_0@ == old(self)@.accounts[name@],
    {
        match self.find(name) {
            Some(i) => {
                proof {
                    lemma_map_at(self.accounts@, i as int);
                    lemma_map_remove(self.accounts@, i as int);
                }
                let a = self.accounts.remove(i);
                if self.total_transactions < u64::MAX {
                    self.total_transactions = self.total_transactions + 1;
                }
                Ok(a)
            },
            None => Err(AppError::AccountNotFound(String::from_str(name))),
        }
    }

    /// Moves `amount` from `from` to `to`: first the debit, then the credit.
    /// Whether the credit can succeed is settled before the debit, so no
    /// failure leaves money taken from `from` without reaching `to`.
    pub fn transfer(&mut self, from: &str, to: &str, amount: u64) -> (r: Result<(), AppError>)
        requires
            old(self).wf(),
        ensures
            final(self).wf(),
            transfer_spec(old(self)@, from@, to@, amount) == (final(self)@, crate::error::unit_view(r)),
            final(self).total() == old(self).total(),
    {
        if str_eq(from, to) {
            return Err(AppError::InvalidAmount(amount));
        }
        match AppError::validate_amount(amount) {
            Ok(()) => {},
            Err(e) => return Err(e),
        }
        let fi = match self.find(from) {
            Some(i) => i,
            None => return Err(AppError::AccountNotFound(String::from_str(from))),
        };
        proof { lemma_map_at(self.accounts@, fi as int); }
        if !self.accounts[fi].has_sufficient_balance(amount) {
            return Err(AppError::insufficient_balance(self.accounts[fi].balance, amount));
        }
        let ti = match self.find(to) {
            Some(i) => i,
            None => return Err(AppError::AccountNotFound(String::from_str(to))),
        };
        proof { lemma_map_at(self.accounts@, ti as int); }
        if self.accounts[ti].balance > u64::MAX - amount {
            return Err(AppError::InvalidAmount(amount));
        }
        let ghost s0 = self.accounts@;
        // Phase one: the debit, through its own exclusive access.
        let debited = self.accounts[fi].subtract_balance(amount);
        let ghost s1 = self.accounts@;
        proof {
            lemma_map_update(s0, fi as int, s1[fi as int]);
            lemma_sum_update(s0, fi as int, s1[fi as int]);
            lemma_map_at(s1, ti as int);
        }
        // Phase two: the credit, once the first access has ended.
        let credited = self.accounts[ti].add_balance(amount);
        proof {
            lemma_map_update(s1, ti as int, self.accounts@[ti as int]);
            lemma_sum_update(s1, ti as int, self.accounts@[ti as int]);
        }
        if self.total_transactions < u64::MAX {
            self.total_transactions = self.total_transactions + 1;
        }
        Ok(())
    }

    /// The sum of all balances.
    pub fn total_balance(&self) -> (r: u64)
        requires
            self.wf(),
            self.total() <= u64::MAX,
        ensures
            r == self.total(),
    {
        let mut sum: u64 = 0;
        let mut i: usize = 0;
        while i < self.accounts.len()
            invariant
                i <= self.accounts@.len(),
                self.total() <= u64::MAX,
                sum == balance_sum(self.accounts@.subrange(0, i as int)),
            decreases self.accounts@.len() - i,
        {
            proof { lemma_sum_prefix(self.accounts@, i as int); }
            sum = sum + self.accounts[i].balance;
            i = i + 1;
        }
        assert(self.accounts@.subrange(0, i as int) =~= self.accounts@);
        sum
    }

    /// The sum of all balances, or `None` when it does not fit in a `u64`.
    pub fn checked_total_balance(&self) -> (r: Option<u64>)
        requires
            self.wf(),
        ensures
            r == (if self.total() <= u64::MAX { Some(self.total() as u64) } else { None::<u64> }),
    {
        let mut sum: u64 = 0;
        let mut i: usize = 0;
        while i < self.accounts.len()
            invariant
                i <= self.accounts@.len(),
                sum == balance_sum(self.accounts@.subrange(0, i as int)),
            decreases self.accounts@.len() - i,
        {
            proof { lemma_sum_prefix(self.accounts@, i as int); }
            if sum > u64::MAX - self.accounts[i].balance {
                proof { lemma_sum_prefix(self.accounts@, i as int); }
                return None;
            }
            sum = sum + self.accounts[i].balance;
            i = i + 1;
        }
        assert(self.accounts@.subrange(0, i as int) =~= self.accounts@);
        Some(sum)
    }

    /// The number of ledger-level changes made so far.
    pub fn total_transactions(&self) -> (r: u64)
        ensures
            r == self@.total_transactions,
    {
        self.total_transactions
    }

    /// The number of accounts.
    pub fn account_count(&self) -> (r: usize)
        requires
            self.wf(),
        ensures
            r == self@.accounts.len(),
    {
        proof { lemma_map_len(self.accounts@); }
        self.accounts.len()
    }

    /// The account names in increasing lexicographic order.
    pub fn list_accounts(&self) -> (r: Vec<String>)
        requires
            self.wf(),
        ensures
            r@.len() == self@.accounts.len(),
            forall|a: int, b: int| 0 <= a < b < r@.len() ==> lex_lt(r@[a]@, r@[b]@),
            forall|k: Seq<char>|
                self@.accounts.contains_key(k) <==> exists|i: int| 0 <= i < r@.len() && r@[i]@ == k,
    {
        let ghost names = names_of(self.accounts@);
        let mut out: Vec<String> = Vec::new();
        let mut i: usize = 0;
        assert(view_set(out@) =~= names.subrange(0, 0).to_set());
        while i < self.accounts.len()
            invariant
                self.wf(),
                names == names_of(self.accounts@),
                i <= self.accounts@.len(),
                out@.len() == i,
                sorted_names(out@),
                view_set(out@) == names.subrange(0, i as int).to_set(),
            decreases self.accounts@.len() - i,
        {
            let name = self.accounts[i].name.clone();
            proof {
                assert(names[i as int] == name@);
                if names.subrange(0, i as int).contains(name@) {
                    let j = choose|j: int| 0 <= j < i && names.subrange(0, i as int)[j] == name@;
                    assert(names[j] == names[i as int]);
                }
                assert(names.subrange(0, i + 1) =~= names.subrange(0, i as int).push(name@));
                names.subrange(0, i as int).lemma_push_to_set_commute(name@);
            }
            insert_sorted(&mut out, name);
            i = i + 1;
        }
        proof {
            lemma_map_len(self.accounts@);
            assert(names.subrange(0, i as int) =~= names);
            assert forall|k: Seq<char>| self@.accounts.contains_key(k) implies exists|q: int|
                0 <= q < out@.len() && out@[q]@ == k by {
                assert(names.to_set().contains(k));
            }
            assert forall|k: Seq<char>| (exists|q: int| 0 <= q < out@.len() && out@[q]@ == k)
                implies self@.accounts.contains_key(k) by {
                assert(view_set(out@).contains(k));
            }
        }
        out
    }
}

/// The character sequences held by a sequence of strings.
spec fn view_set(v: Seq<String>) -> Set<Seq<char>> {
    Set::new(|k: Seq<char>| exists|q: int| 0 <= q < v.len() && v[q]@ == k)
}

/// Strings in strictly increasing lexicographic order.
spec fn sorted_names(v: Seq<String>) -> bool {
    forall|a: int, b: int| 0 <= a < b < v.len() ==> lex_lt(v[a]@, v[b]@)
}

fn insert_sorted(out: &mut Vec<String>, name: String)
    requires
        sorted_names(old(out)@),
        !view_set(old(out)@).contains(name@),
    ensures
        final(out)@.len() == old(out)@.len() + 1,
        sorted_names(final(out)@),
        view_set(final(out)@) == view_set(old(out)@).insert(name@),
{
    let ghost old_out = out@;
    let mut p: usize = 0;
    while p < out.len() && !less_than(name.as_str(), out[p].as_str())
        invariant
            out@ == old_out,
            !view_set(old_out).contains(name@),
            p <= out@.len(),
            forall|q: int| 0 <= q < p ==> lex_lt(#[trigger] out@[q]@, name@),
        decreases out@.len() - p,
    {
        proof {
            if out@[p as int]@ == name@ {
                assert(view_set(old_out).contains(out@[p as int]@));
            }
            lemma_lex_total(out@[p as int]@, name@);
        }
        p = p + 1;
    }
    proof {
        assert forall|q: int| p <= q < old_out.len() implies lex_lt(name@, #[trigger] old_out[q]@) by {
            if q > p {
                lemma_lex_transitive(name@, old_out[p as int]@, old_out[q]@);
            }
        }
    }
    out.insert(p, name);
    proof {
        assert forall|a: int, b: int| 0 <= a < b < out@.len() implies lex_lt(out@[a]@, out@[b]@) by {
            if a < p && b > p {
                assert(out@[b] == old_out[b - 1]);
            } else if a == p {
                assert(out@[b] == old_out[b - 1]);
            } else if a > p {
                assert(out@[a] == old_out[a - 1]);
                assert(out@[b] == old_out[b - 1]);
            }
        }
        assert forall|k: Seq<char>| view_set(out@).contains(k) implies view_set(old_out).insert(
            name@,
        ).contains(k) by {
            let q = choose|q: int| 0 <= q < out@.len() && out@[q]@ == k;
            if q < p {
                assert(out@[q] == old_out[q]);
            } else if q > p {
                assert(out@[q] == old_out[q - 1]);
            }
        }
        assert forall|k: Seq<char>| view_set(old_out).insert(name@).contains(k) implies view_set(
            out@,
        ).contains(k) by {
            if k == name@ {
                assert(out@[p as int]@ == k);
            } else {
                let q = choose|q: int| 0 <= q < old_out.len() && old_out[q]@ == k;
                if q < p {
                    assert(out@[q] == old_out[q]);
                } else {
                    assert(out@[q + 1] == old_out[q]);
                }
            }
        }
        assert(view_set(out@) =~= view_set(old_out).insert(name@));
    }
}

impl Default for AppState {
    fn default() -> (r: Self)
        ensures
            r.wf(),
            r@.accounts == Map::<Seq<char>, AccountView>::empty(),
            r@.total_transactions == 0,
    {
        AppState::new()
    }
}

} // verus!
