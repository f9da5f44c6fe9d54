//! The input: rows of four fields, and the transaction records they
//! denote.
//!
//! A row names a kind of transaction, an account, a transaction id and,
//! for deposits and withdrawals, an amount. The kind is a keyword, read
//! without regard to case or to blanks around it; the amount is decimal
//! text. Rows are read in order, and the first malformed one ends the
//! reading.

use crate::amount::{text_units, Amount};
use crate::error::ApplicationError;
use vstd::prelude::*;
use vstd::string::*;

verus! {

/// The five kinds of transaction.
#[derive(Clone, Copy, Debug, PartialEq, Eq, Structural)]
pub enum TransactionType {
    /// A credit to the account.
    Deposit,
    /// A debit from the account.
    Withdrawal,
    /// A claim that an earlier transaction was erroneous.
    Dispute,
    /// The end of a dispute in the account's favour.
    Resolve,
    /// The end of a dispute by reversal of the transaction.
    Chargeback,
}

/// Whether `c` is one of the blanks that may surround a field: space, tab,
/// line feed, form feed or carriage return.
pub open spec fn is_blank(c: char) -> bool {
    c == ' ' || c == '\t' || c == '\n' || c == '\x0C' || c == '\r'
}

/// `c` in lower case, where it is one of the letters `A` to `Z`.
pub open spec fn lower(c: char) -> char {
    if 'A' <= c <= 'Z' {
        ((c as u32) + 32) as char
    } else {
        c
    }
}

/// `text` without the blanks at its start and at its end.
pub open spec fn trimmed(text: Seq<char>) -> Seq<char>
    decreases text.len(),
{
    if text.len() > 0 && is_blank(text.first()) {
        trimmed(text.drop_first())
    } else if text.len() > 0 && is_blank(text.last()) {
        trimmed(text.drop_last())
    } else {
        text
    }
}

/// Whether `text`, trimmed and in lower case, is `keyword`.
pub open spec fn spells(text: Seq<char>, keyword: Seq<char>) -> bool {
    trimmed(text).map_values(|c: char| lower(c)) == keyword
}

/// The kind of transaction that `text` names, if it names one.
pub open spec fn keyword_type(text: Seq<char>) -> Option<TransactionType> {
    if spells(text, "deposit"@) {
        Some(TransactionType::Deposit)
    } else if spells(text, "withdrawal"@) {
        Some(TransactionType::Withdrawal)
    } else if spells(text, "dispute"@) {
        Some(TransactionType::Dispute)
    } else if spells(text, "resolve"@) {
        Some(TransactionType::Resolve)
    } else if spells(text, "chargeback"@) {
        Some(TransactionType::Chargeback)
    } else {
        None
    }
}

/// Whether `c` is a blank.
fn blank(c: char) -> (b: bool)
    ensures
        b == is_blank(c),
{
    c == ' ' || c == '\t' || c == '\n' || c == '\x0C' || c == '\r'
}

/// `c` in lower case.
fn lowered(c: char) -> (l: char)
    ensures
        l == lower(c),
{
    if 'A' <= c && c <= 'Z' {
        ((c as u8) + 32) as char
    } else {
        c
    }
}

/// Trimming a text that starts with a blank is trimming what follows the
/// blank; trimming one that starts with none and ends with a blank is
/// trimming what precedes that blank.
proof fn lemma_trimmed_step(text: Seq<char>)
    requires
        text.len() > 0,
    ensures
        is_blank(text.first()) ==> trimmed(text) == trimmed(text.drop_first()),
        !is_blank(text.first()) && is_blank(text.last()) ==> trimmed(text) == trimmed(
            text.drop_last(),
        ),
        !is_blank(text.first()) && !is_blank(text.last()) ==> trimmed(text) == text,
{
}

/// Whether the characters of `text` from `start` up to `end`, in lower
/// case, are those of `keyword`.
fn spelled(text: &str, start: usize, end: usize, keyword: &str) -> (same: bool)
    requires
        start <= end <= text@.len(),
    ensures
        same == (text@.subrange(start as int, end as int).map_values(|c: char| lower(c))
            == keyword@),
{
    let ghost word = text@.subrange(start as int, end as int).map_values(|c: char| lower(c));
    let length: usize = keyword.unicode_len();
    if end - start != length {
        return false;
    }
    let mut at: usize = 0;
    while at < length
        invariant
            at <= length,
            length == keyword@.len(),
            start <= end <= text@.len(),
            end - start == length,
            word == text@.subrange(start as int, end as int).map_values(|c: char| lower(c)),
            forall|i: int| 0 <= i < at ==> word[i] == keyword@[i],
        decreases length - at,
    {
        if lowered(text.get_char(start + at)) != keyword.get_char(at) {
            return false;
        }
        at = at + 1;
    }
    assert(word =~= keyword@);
    true
}

impl TransactionType {
    /// Reads the kind of a transaction from its keyword: `deposit`,
    /// `withdrawal`, `dispute`, `resolve` or `chargeback`, in any mix of
    /// upper and lower case, with or without blanks around it.
    pub fn parse(text: &str) -> (kind: Option<TransactionType>)
        ensures
            kind == keyword_type(text@),
    {
        let length: usize = text.unicode_len();
        let mut start: usize = 0;
        assert(text@.subrange(0, length as int) =~= text@);
        while start < length && blank(text.get_char(start))
            invariant
                start <= length,
                length == text@.len(),
                trimmed(text@) == trimmed(text@.subrange(start as int, length as int)),
            decreases length - start,
        {
            proof {
                let rest = text@.subrange(start as int, length as int);
                lemma_trimmed_step(rest);
                assert(rest.drop_first() =~= text@.subrange(start + 1, length as int));
            }
            start = start + 1;
        }
        let mut end: usize = length;
        while end > start && blank(text.get_char(end - 1))
            invariant
                start <= end <= length,
                length == text@.len(),
                start < length ==> !is_blank(text@[start as int]),
                trimmed(text@) == trimmed(text@.subrange(start as int, end as int)),
            decreases end - start,
        {
            proof {
                let rest = text@.subrange(start as int, end as int);
                lemma_trimmed_step(rest);
                assert(rest.drop_last() =~= text@.subrange(start as int, end - 1));
            }
            end = end - 1;
        }
        proof {
            let word = text@.subrange(start as int, end as int);
            if word.len() > 0 {
                lemma_trimmed_step(word);
            }
        }
        if spelled(text, start, end, "deposit") {
            Some(TransactionType::Deposit)
        } else if spelled(text, start, end, "withdrawal") {
            Some(TransactionType::Withdrawal)
        } else if spelled(text, start, end, "dispute") {
            Some(TransactionType::Dispute)
        } else if spelled(text, start, end, "resolve") {
            Some(TransactionType::Resolve)
        } else if spelled(text, start, end, "chargeback") {
            Some(TransactionType::Chargeback)
        } else {
            None
        }
    }
}

/// One record of the input: a kind, the account it is for, a transaction
/// id and, for deposits and withdrawals, an amount. A dispute, resolve or
/// chargeback names in `tx_id` the earlier transaction it refers to.
#[derive(Clone, Copy, Debug)]
pub struct CsvTransaction {
    pub tx_type: TransactionType,
    pub client_id: u16,
    pub tx_id: u32,
    pub amount: Option<Amount>,
}

impl CsvTransaction {
    /// The amount the record carries, in ten-thousandths.
    pub open spec fn units(self) -> Option<int> {
        match self.amount {
            Some(amount) => Some(amount@),
            None => None,
        }
    }
}

/// What an amount field of the input denotes: nothing where the field is
/// absent, otherwise the count of ten-thousandths of its text, if it has one.
pub open spec fn field_units(field: Option<Seq<char>>) -> Option<Option<int>> {
    match field {
        Some(text) => match text_units(text) {
            Some(units) => Some(Some(units)),
            None => None,
        },
        None => Some(None),
    }
}

/// The characters of a field that may be absent.
pub open spec fn field_text(field: Option<&str>) -> Option<Seq<char>> {
    match field {
        Some(text) => Some(text@),
        None => None,
    }
}

/// Reads the amount field of a record. An absent field is no amount; a
/// present one is decimal text, rounded half to even to four fractional
/// digits. Text that cannot be read makes the record malformed.
pub fn deserialize_decimal_opt(field: Option<&str>) -> (amount: Result<
    Option<Amount>,
    ApplicationError,
>)
    ensures
        match amount {
            Ok(Some(a)) => field_units(field_text(field)) == Some(Some(a@)),
            Ok(None) => field is None,
            Err(e) => field_units(field_text(field)) is None
                && e is FailedDeserializedCsvTransaction,
        },
{
    match field {
        Some(text) => match Amount::parse(text) {
            Ok(amount) => Ok(Some(amount)),
            Err(error) => Err(error),
        },
        None => Ok(None),
    }
}

/// One row of the input as it was read: the kind and the amount still as
/// text, the two ids as numbers.
#[derive(Clone, Debug)]
pub struct CsvRow {
    pub tx_type: String,
    pub client_id: u16,
    pub tx_id: u32,
    pub amount: Option<String>,
}

impl CsvRow {
    /// The characters of the amount field, where the row has one.
    pub open spec fn amount_text(self) -> Option<Seq<char>> {
        match self.amount {
            Some(text) => Some(text@),
            None => None,
        }
    }

    /// Whether the row denotes no record: its kind is no keyword, or its
    /// amount cannot be read.
    pub open spec fn malformed(self) -> bool {
        keyword_type(self.tx_type@) is None || field_units(self.amount_text()) is None
    }

    /// Whether `record` is what the row denotes: the kind that the keyword
    /// names, the two ids, and the amount of the amount field.
    pub open spec fn denotes(self, record: CsvTransaction) -> bool {
        &&& keyword_type(self.tx_type@) == Some(record.tx_type)
        &&& record.client_id == self.client_id
        &&& record.tx_id == self.tx_id
        &&& field_units(self.amount_text()) == Some(record.units())
    }

    /// The record that the row denotes. A row whose kind is no keyword, or
    /// whose amount cannot be read, is malformed.
    pub fn record(&self) -> (record: Result<CsvTransaction, ApplicationError>)
        ensures
            match record {
                Ok(r) => self.denotes(r),
                Err(e) => self.malformed() && e is FailedDeserializedCsvTransaction,
            },
    {
        let tx_type = match TransactionType::parse(self.tx_type.as_str()) {
            Some(tx_type) => tx_type,
            None => {
                return Err(
                    ApplicationError::FailedDeserializedCsvTransaction(
                        "unknown transaction type".to_owned(),
                    ),
                );
            },
        };
        let field = match &self.amount {
            Some(text) => Some(text.as_str()),
            None => None,
        };
        match deserialize_decimal_opt(field) {
            Ok(amount) => Ok(
                CsvTransaction { tx_type, client_id: self.client_id, tx_id: self.tx_id, amount },
            ),
            Err(error) => Err(error),
        }
    }
}

/// Whether a row ends the reading: it could not be split into fields, or
/// its fields denote no record.
pub open spec fn ends_reading(row: Result<CsvRow, String>) -> bool {
    match row {
        Ok(fields) => fields.malformed(),
        Err(_) => true,
    }
}

/// Whether `record` is what a row denotes.
pub open spec fn row_denotes(row: Result<CsvRow, String>, record: CsvTransaction) -> bool {
    match row {
        Ok(fields) => fields.denotes(record),
        Err(_) => false,
    }
}

/// The number of rows that are read before the first that ends the reading.
pub open spec fn rows_read(rows: Seq<Result<CsvRow, String>>) -> nat
    decreases rows.len(),
{
    if rows.len() == 0 || ends_reading(rows.first()) {
        0
    } else {
        1 + rows_read(rows.drop_first())
    }
}

/// Reads the rows of the input in order and forwards the record of each to
/// `dispatcher_sender`, up to the first row that is malformed. Where no
/// row is, all records are handed back; where one is, the reading ends
/// there with its error: rows before it have been forwarded, rows after it
/// are not looked at. A row that could not be split into fields arrives as
/// the text of that fault, which becomes the text of the error.
pub fn read_csv(
    rows: &Vec<Result<CsvRow, String>>,
    dispatcher_sender: &mut Vec<CsvTransaction>,
) -> (transactions: Result<Vec<CsvTransaction>, ApplicationError>)
    ensures
        final(dispatcher_sender)@.len() == old(dispatcher_sender)@.len() + rows_read(rows@),
        final(dispatcher_sender)@.take(old(dispatcher_sender)@.len() as int)
            == old(dispatcher_sender)@,
        forall|i: int|
            0 <= i < rows_read(rows@) ==> row_denotes(
                #[trigger] rows@[i],
                final(dispatcher_sender)@[old(dispatcher_sender)@.len() + i],
            ),
        match transactions {
            Ok(records) => rows_read(rows@) == rows@.len()
                && records@ == final(dispatcher_sender)@.skip(
                old(dispatcher_sender)@.len() as int,
            ),
            Err(e) => {
                &&& rows_read(rows@) < rows@.len()
                &&& match rows@[rows_read(rows@) as int] {
                    Ok(_) => e is FailedDeserializedCsvTransaction,
                    Err(text) => e == ApplicationError::FailedDeserializedCsvTransaction(text),
                }
            },
        },
{
    let ghost before = dispatcher_sender@;
    let mut transactions: Vec<CsvTransaction> = Vec::new();
    let mut next: usize = 0;
    assert(rows@.skip(0) =~= rows@);
    while next < rows.len()
        invariant
            next <= rows@.len(),
            before == old(dispatcher_sender)@,
            rows_read(rows@) == next + rows_read(rows@.skip(next as int)),
            dispatcher_sender@ == before + transactions@,
            transactions@.len() == next,
            forall|i: int|
                0 <= i < next ==> row_denotes(#[trigger] rows@[i], transactions@[i]),
        decreases rows@.len() - next,
    {
        let ghost rest = rows@.skip(next as int);
        assert(rest.drop_first() =~= rows@.skip(next + 1));
        let outcome = match &rows[next] {
            Ok(fields) => fields.record(),
            Err(text) => Err(ApplicationError::FailedDeserializedCsvTransaction(text.clone())),
        };
        match outcome {
            Ok(csv_transaction) => {
                transactions.push(csv_transaction);
                dispatcher_sender.push(csv_transaction);
            },
            Err(error) => {
                return Err(error);
            },
        }
        next = next + 1;
    }
    Ok(transactions)
}

} // verus!
