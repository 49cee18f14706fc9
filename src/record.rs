use vstd::prelude::*;
use crate::models::{kind_of_name, lower_of, ClientAccount, Transaction, TransactionType};
use crate::money::{amount_text, amount_value, format_amount, id_value, nat_text, parse_amount, parse_id, push_nat};

verus! {

/// Which field of a record could not be read.
#[derive(Debug, Clone, Copy, PartialEq, Eq, Structural)]
pub enum RecordError {
    UnknownType,
    InvalidClient,
    InvalidTx,
    InvalidAmount,
}

/// The amount field: empty when absent, else a decimal within `i64`.
pub open spec fn amount_field(s: Seq<char>) -> Result<Option<i64>, RecordError> {
    if s.len() == 0 {
        Ok(None)
    } else {
        match amount_value(s) {
            Some(v) => if -(i64::MAX as int) <= v <= i64::MAX {
                Ok(Some(v as i64))
            } else {
                Err(RecordError::InvalidAmount)
            },
            None => Err(RecordError::InvalidAmount),
        }
    }
}

/// The transaction that the four fields `type, client, tx, amount` of a
/// record describe, the type compared without regard to case.
pub open spec fn record_value(kind: Seq<char>, client: Seq<char>, tx: Seq<char>, amount: Seq<char>) -> Result<
    Transaction,
    RecordError,
> {
    match kind_of_name(lower_of(kind)) {
        None => Err(RecordError::UnknownType),
        Some(k) => match id_value(client, u16::MAX as int) {
            None => Err(RecordError::InvalidClient),
            Some(c) => match id_value(tx, u32::MAX as int) {
                None => Err(RecordError::InvalidTx),
                Some(t) => match amount_field(amount) {
                    Err(e) => Err(e),
                    Ok(a) => Ok(Transaction { tx_type: k, client_id: c as u16, tx_id: t as u32, amount: a }),
                },
            },
        },
    }
}

/// Reads the amount field of a record.
pub fn parse_amount_field(s: &str) -> (r: Result<Option<i64>, RecordError>)
    ensures
        r == amount_field(s@),
{
    if s.unicode_len() == 0 {
        return Ok(None);
    }
    match parse_amount(s) {
        Some(v) => Ok(Some(v)),
        None => Err(RecordError::InvalidAmount),
    }
}

/// Reads one record from its four (already trimmed) fields.
pub fn parse_record(kind: &str, client: &str, tx: &str, amount: &str) -> (r: Result<
    Transaction,
    RecordError,
>)
    ensures
        r == record_value(kind@, client@, tx@, amount@),
{
    let tx_type = match TransactionType::from_str(kind) {
        Ok(k) => k,
        Err(_) => {
            return Err(RecordError::UnknownType);
        },
    };
    let client_id = match parse_id(client, 65535) {
        Some(c) => c as u16,
        None => {
            return Err(RecordError::InvalidClient);
        },
    };
    let tx_id = match parse_id(tx, 4294967295) {
        Some(t) => t,
        None => {
            return Err(RecordError::InvalidTx);
        },
    };
    let amount = match parse_amount_field(amount) {
        Ok(a) => a,
        Err(e) => {
            return Err(e);
        },
    };
    Ok(Transaction { tx_type, client_id, tx_id, amount })
}

/// The names of the columns of an exported account.
pub fn account_header() -> (r: Vec<&'static str>)
    ensures
        r@.len() == 5,
        r@[0]@ == "client"@,
        r@[1]@ == "available"@,
        r@[2]@ == "held"@,
        r@[3]@ == "total"@,
        r@[4]@ == "locked"@,
{
    vec!["client", "available", "held", "total", "locked"]
}

pub open spec fn bool_text(b: bool) -> Seq<char> {
    if b {
        "true"@
    } else {
        "false"@
    }
}

impl ClientAccount {
    /// The exported columns of the account: its client id, its three
    /// balances with four fractional digits, and its lock flag.
    pub fn fields(&self) -> (r: Vec<String>)
        ensures
            r@.len() == 5,
            r@[0]@ == nat_text(self.client_id as nat),
            r@[1]@ == amount_text(self.available as int),
            r@[2]@ == amount_text(self.held as int),
            r@[3]@ == amount_text(self.total as int),
            r@[4]@ == bool_text(self.locked),
    {
        let mut client = String::new();
        push_nat(&mut client, self.client_id as u64);
        assert(client@ =~= nat_text(self.client_id as nat));
        let mut locked = String::new();
        if self.locked {
            locked.append("true");
        } else {
            locked.append("false");
        }
        assert(locked@ =~= bool_text(self.locked));
        let mut r: Vec<String> = Vec::new();
        r.push(client);
        r.push(format_amount(self.available));
        r.push(format_amount(self.held));
        r.push(format_amount(self.total));
        r.push(locked);
        r
    }
}

} // verus!
