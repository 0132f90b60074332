//! Ledger entries and the text they are read from: one entry per line,
//! four fields apart by white space, `<from> <to> <amount> <mode>`.

use crate::text::{fields, int_token, lines, parse_int, split_fields, split_lines, views};
use vstd::prelude::*;

verus! {

/// The letter of a deposit.
pub const LETTER_D: u8 = 68;

/// The letter of a withdrawal.
pub const LETTER_W: u8 = 87;

/// The letter of a transfer.
pub const LETTER_T: u8 = 84;

/// The letter of a balance check.
pub const LETTER_C: u8 = 67;

/// The kind of operation an entry asks for.
#[derive(Clone, Copy, Debug, PartialEq, Eq)]
pub enum Mode {
    /// Adds the amount to the `from` account.
    Deposit,
    /// Takes the amount from the `from` account.
    Withdraw,
    /// Moves the amount from the `from` account to the `to` account.
    Transfer,
    /// Reads the balance of the `from` account.
    CheckBalance,
}

/// One requested operation.
#[derive(Clone, Copy, Debug, PartialEq, Eq)]
pub struct Ledger {
    /// The account the operation is about; the source of a transfer.
    pub from: i32,
    /// The destination of a transfer; not looked at otherwise.
    pub to: i32,
    /// The amount to move.
    pub amount: i32,
    /// The kind of operation.
    pub mode: Mode,
    /// The place of the entry in its ledger.
    pub ledger_id: i32,
}

/// Why a line of text is no ledger entry.
#[derive(Clone, Copy, Debug, PartialEq, Eq)]
pub enum MalformedEntry {
    /// The line has fewer than four fields.
    MissingField,
    /// The line has more than four fields.
    ExtraField,
    /// One of the first three fields does not spell an `i32`.
    NotAnInteger,
    /// The amount is below zero.
    NegativeAmount,
    /// The fourth field is none of `D`, `W`, `T`, `C`.
    UnknownMode,
}

impl Ledger {
    /// The amount of an entry is never negative.
    pub open spec fn valid(self) -> bool {
        self.amount >= 0
    }
}

/// The mode that a token spells: one of the letters `D`, `W`, `T`, `C`.
pub open spec fn mode_token(token: Seq<u8>) -> Option<Mode> {
    if token.len() != 1 {
        None
    } else if token[0] == LETTER_D {
        Some(Mode::Deposit)
    } else if token[0] == LETTER_W {
        Some(Mode::Withdraw)
    } else if token[0] == LETTER_T {
        Some(Mode::Transfer)
    } else if token[0] == LETTER_C {
        Some(Mode::CheckBalance)
    } else {
        None
    }
}

/// The entry that a line spells under the id `ledger_id`, or why it
/// spells none. The number of fields is looked at first, then the three
/// integers, then the sign of the amount, then the mode letter.
pub open spec fn entry_of_line(line: Seq<u8>, ledger_id: i32) -> Result<Ledger, MalformedEntry> {
    let f = fields(line);
    if f.len() < 4 {
        Err(MalformedEntry::MissingField)
    } else if f.len() > 4 {
        Err(MalformedEntry::ExtraField)
    } else if int_token(f[0]) is None || int_token(f[1]) is None || int_token(f[2]) is None {
        Err(MalformedEntry::NotAnInteger)
    } else if int_token(f[2])->0 < 0 {
        Err(MalformedEntry::NegativeAmount)
    } else if mode_token(f[3]) is None {
        Err(MalformedEntry::UnknownMode)
    } else {
        Ok(
            Ledger {
                from: int_token(f[0])->0 as i32,
                to: int_token(f[1])->0 as i32,
                amount: int_token(f[2])->0 as i32,
                mode: mode_token(f[3])->0,
                ledger_id,
            },
        )
    }
}

/// Reads a token as a mode letter.
pub fn parse_mode(token: &[u8]) -> (r: Option<Mode>)
    ensures
        r == mode_token(token@),
{
    if token.len() != 1 {
        None
    } else if token[0] == LETTER_D {
        Some(Mode::Deposit)
    } else if token[0] == LETTER_W {
        Some(Mode::Withdraw)
    } else if token[0] == LETTER_T {
        Some(Mode::Transfer)
    } else if token[0] == LETTER_C {
        Some(Mode::CheckBalance)
    } else {
        None
    }
}

/// Reads one line as a ledger entry with the id `ledger_id`. An entry
/// that comes back is valid.
pub fn parse_entry(line: &[u8], ledger_id: i32) -> (r: Result<Ledger, MalformedEntry>)
    ensures
        r == entry_of_line(line@, ledger_id),
        r matches Ok(entry) ==> entry.valid(),
{
    let parts: Vec<&[u8]> = split_fields(line);
    if parts.len() < 4 {
        return Err(MalformedEntry::MissingField);
    }
    if parts.len() > 4 {
        return Err(MalformedEntry::ExtraField);
    }
    let from: Option<i32> = parse_int(parts[0]);
    let to: Option<i32> = parse_int(parts[1]);
    let amount: Option<i32> = parse_int(parts[2]);
    match (from, to, amount) {
        (Some(from), Some(to), Some(amount)) => {
            if amount < 0 {
                return Err(MalformedEntry::NegativeAmount);
            }
            match parse_mode(parts[3]) {
                Some(mode) => Ok(Ledger { from, to, amount, mode, ledger_id }),
                None => Err(MalformedEntry::UnknownMode),
            }
        },
        _ => Err(MalformedEntry::NotAnInteger),
    }
}

/// Reads a whole ledger text: for each line, in order, the entry it
/// spells or why it spells none. The ids count the lines from 0, so an
/// entry keeps its id whatever becomes of the lines around it.
pub fn parse_ledger(text: &[u8]) -> (entries: Vec<Result<Ledger, MalformedEntry>>)
    requires
        lines(text@).len() <= i32::MAX + 1,
    ensures
        entries@.len() == lines(text@).len(),
        forall|i: int|
            0 <= i < entries@.len() ==> #[trigger] entries@[i] == entry_of_line(
                lines(text@)[i],
                i as i32,
            ),
{
    let parts: Vec<&[u8]> = split_lines(text);
    let count: usize = parts.len();
    let mut entries: Vec<Result<Ledger, MalformedEntry>> = Vec::new();
    let mut i: usize = 0;
    while i < count
        invariant
            i <= count,
            count == parts@.len(),
            count <= i32::MAX + 1,
            views(parts@) == lines(text@),
            entries@.len() == i,
            forall|k: int|
                0 <= k < i ==> #[trigger] entries@[k] == entry_of_line(lines(text@)[k], k as i32),
        decreases count - i,
    {
        let entry: Result<Ledger, MalformedEntry> = parse_entry(parts[i], i as i32);
        entries.push(entry);
        i = i + 1;
    }
    entries
}

} // verus!
