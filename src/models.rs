use vstd::prelude::*;

verus! {

/// The five kinds of transaction record.
#[derive(Debug, Clone, Copy, PartialEq, Eq, Structural)]
pub enum TransactionType {
    Deposit,
    Withdrawal,
    Dispute,
    Resolve,
    Chargeback,
}

/// One transaction record. Amounts are fixed-point numbers counted in
/// ten-thousandths of a currency unit (`1.5` is `15000`).
#[derive(Debug, Clone, Copy, PartialEq, Eq)]
pub struct Transaction {
    pub tx_type: TransactionType,
    pub client_id: u16,
    pub tx_id: u32,
    pub amount: Option<i64>,
}

/// The balance of one client, in ten-thousandths of a currency unit.
#[derive(Debug, Clone, Copy, PartialEq, Eq, Structural)]
pub struct ClientAccount {
    pub client_id: u16,
    pub available: i64,
    pub held: i64,
    pub total: i64,
    pub locked: bool,
}

/// Non-negative balances whose total is the sum of the other two.
pub open spec fn account_ok(a: ClientAccount) -> bool {
    &&& a.available >= 0
    &&& a.held >= 0
    &&& a.total == a.available + a.held
}

pub open spec fn empty_account(client_id: u16) -> ClientAccount {
    ClientAccount { client_id, available: 0, held: 0, total: 0, locked: false }
}

impl ClientAccount {
    /// A fresh, unlocked account with nothing in it.
    pub fn new(client_id: u16) -> (r: ClientAccount)
        ensures
            r == empty_account(client_id),
            account_ok(r),
    {
        ClientAccount { client_id, available: 0, held: 0, total: 0, locked: false }
    }
}

/// What `str::to_lowercase` makes of a string.
pub uninterp spec fn lower_of(s: Seq<char>) -> Seq<char>;

/// Relies on `str::to_lowercase`: the lowercase form depends on the characters alone.
#[verifier::external_body]
fn lowercase(s: &str) -> (r: String)
    ensures
        r@ == lower_of(s@),
{
    s.to_lowercase()
}

/// The kind named by an already lowercased word.
pub open spec fn kind_of_name(s: Seq<char>) -> Option<TransactionType> {
    if s == "deposit"@ {
        Some(TransactionType::Deposit)
    } else if s == "withdrawal"@ {
        Some(TransactionType::Withdrawal)
    } else if s == "dispute"@ {
        Some(TransactionType::Dispute)
    } else if s == "resolve"@ {
        Some(TransactionType::Resolve)
    } else if s == "chargeback"@ {
        Some(TransactionType::Chargeback)
    } else {
        None
    }
}

/// Whether `s` spells out exactly the characters of `lit`.
fn same_chars(s: &str, lit: &str) -> (r: bool)
    ensures
        r == (s@ == lit@),
{
    let n = s.unicode_len();
    let m = lit.unicode_len();
    if n != m {
        return false;
    }
    let mut i: usize = 0;
    while i < n
        invariant
            n == s@.len(),
            m == lit@.len(),
            n == m,
            i <= n,
            forall|j: int| 0 <= j < i ==> s@[j] == lit@[j],
        decreases n - i,
    {
        if s.get_char(i) != lit.get_char(i) {
            return false;
        }
        i = i + 1;
    }
    assert(s@ =~= lit@);
    true
}

impl TransactionType {
    /// The kind named by a word that is already in lowercase.
    pub fn from_lowercase(s: &str) -> (r: Option<TransactionType>)
        ensures
            r == kind_of_name(s@),
    {
        if same_chars(s, "deposit") {
            Some(TransactionType::Deposit)
        } else if same_chars(s, "withdrawal") {
            Some(TransactionType::Withdrawal)
        } else if same_chars(s, "dispute") {
            Some(TransactionType::Dispute)
        } else if same_chars(s, "resolve") {
            Some(TransactionType::Resolve)
        } else if same_chars(s, "chargeback") {
            Some(TransactionType::Chargeback)
        } else {
            None
        }
    }

    /// Parses a kind name, ignoring case.
    pub fn from_str(input: &str) -> (r: Result<TransactionType, &'static str>)
        ensures
            match kind_of_name(lower_of(input@)) {
                Some(k) => r == Ok::<TransactionType, &'static str>(k),
                None => r.is_err(),
            },
    {
        let lowered = lowercase(input);
        match TransactionType::from_lowercase(lowered.as_str()) {
            Some(k) => Ok(k),
            None => Err("Invalid transaction type"),
        }
    }

    /// The kind's name with a capital initial, as messages write it.
    pub open spec fn title(self) -> Seq<char> {
        match self {
            TransactionType::Deposit => "Deposit"@,
            TransactionType::Withdrawal => "Withdrawal"@,
            TransactionType::Dispute => "Dispute"@,
            TransactionType::Resolve => "Resolve"@,
            TransactionType::Chargeback => "Chargeback"@,
        }
    }

    /// The kind's name as records write it.
    pub open spec fn name(self) -> Seq<char> {
        match self {
            TransactionType::Deposit => "deposit"@,
            TransactionType::Withdrawal => "withdrawal"@,
            TransactionType::Dispute => "dispute"@,
            TransactionType::Resolve => "resolve"@,
            TransactionType::Chargeback => "chargeback"@,
        }
    }

    pub fn title_str(&self) -> (r: &'static str)
        ensures
            r@ == self.title(),
    {
        match self {
            TransactionType::Deposit => "Deposit",
            TransactionType::Withdrawal => "Withdrawal",
            TransactionType::Dispute => "Dispute",
            TransactionType::Resolve => "Resolve",
            TransactionType::Chargeback => "Chargeback",
        }
    }

    pub fn name_str(&self) -> (r: &'static str)
        ensures
            r@ == self.name(),
    {
        match self {
            TransactionType::Deposit => "deposit",
            TransactionType::Withdrawal => "withdrawal",
            TransactionType::Dispute => "dispute",
            TransactionType::Resolve => "resolve",
            TransactionType::Chargeback => "chargeback",
        }
    }

    /// Deposits and withdrawals carry an amount; the other kinds refer back to one.
    pub open spec fn carries_amount(self) -> bool {
        self is Deposit || self is Withdrawal
    }

    pub fn has_amount(&self) -> (r: bool)
        ensures
            r == self.carries_amount(),
    {
        match self {
            TransactionType::Deposit | TransactionType::Withdrawal => true,
            _ => false,
        }
    }
}

} // verus!
