use vstd::prelude::*;

use crate::aggregate::CumulativeRow;
use crate::error::FlowError;

verus! {

/// Base units in one display unit.
pub const UNITS_PER_COIN: u64 = 1_000_000;

/// The character of a decimal digit.
pub open spec fn digit_char(d: nat) -> char {
    ((d % 10) + 48) as char
}

/// `n` in decimal, without leading zeros.
pub open spec fn decimal(n: nat) -> Seq<char>
    decreases n,
{
    if n < 10 {
        seq![digit_char(n)]
    } else {
        decimal(n / 10).push(digit_char(n % 10))
    }
}

/// The last `w` decimal digits of `n`, with leading zeros.
pub open spec fn padded(n: nat, w: nat) -> Seq<char>
    decreases w,
{
    if w == 0 {
        Seq::empty()
    } else {
        padded(n / 10, (w - 1) as nat).push(digit_char(n % 10))
    }
}

/// An amount of base units in display units, with six decimals.
pub open spec fn units_text(a: nat) -> Seq<char> {
    decimal(a / 1_000_000) + seq!['.'] + padded(a % 1_000_000, 6)
}

/// An amount of base units with the coin's label.
pub open spec fn units_label(a: nat) -> Seq<char> {
    units_text(a) + seq![' ', 'I', 'O', 'T', 'A']
}

/// The UTC calendar time `secs` seconds after the epoch, as chrono prints a
/// naive date and time.
pub uninterp spec fn utc_datetime_text(secs: u32) -> Seq<char>;

/// Relies on `String::push`: appends one character.
#[verifier::external_body]
fn push_char(s: &mut String, c: char)
    ensures
        final(s)@ == old(s)@.push(c),
{
    s.push(c)
}

/// Relies on chrono's `DateTime::from_timestamp` and the `Display` of
/// `NaiveDateTime`: the time as text; chrono covers every 32-bit timestamp.
#[verifier::external_body]
fn utc_time_text(secs: u32) -> (r: Option<String>)
    ensures
        r matches Some(t) ==> t@ == utc_datetime_text(secs),
        r is Some,
{
    match chrono::DateTime::from_timestamp(secs as i64, 0) {
        Some(d) => Some(d.naive_utc().to_string()),
        None => None,
    }
}

fn digit(d: u64) -> (c: char)
    requires
        d < 10,
    ensures
        c == digit_char(d as nat),
{
    ((d as u8) + 48) as char
}

fn push_decimal(s: &mut String, n: u64)
    ensures
        final(s)@ == old(s)@ + decimal(n as nat),
    decreases n,
{
    if n >= 10 {
        push_decimal(s, n / 10);
    }
    push_char(s, digit(n % 10));
    assert(final(s)@ =~= old(s)@ + decimal(n as nat));
}

fn push_padded(s: &mut String, n: u64, w: u64)
    ensures
        final(s)@ == old(s)@ + padded(n as nat, w as nat),
    decreases w,
{
    if w > 0 {
        push_padded(s, n / 10, w - 1);
        push_char(s, digit(n % 10));
    }
    assert(final(s)@ =~= old(s)@ + padded(n as nat, w as nat));
}

/// An amount of base units in display units, with six decimals
/// (`5000000` gives `5.000000`).
pub fn format_units(amount: u64) -> (r: String)
    ensures
        r@ == units_text(amount as nat),
{
    let mut s = String::new();
    push_decimal(&mut s, amount / UNITS_PER_COIN);
    push_char(&mut s, '.');
    push_padded(&mut s, amount % UNITS_PER_COIN, 6);
    assert(s@ =~= units_text(amount as nat));
    s
}

/// An amount of base units with the coin's label (`5.000000 IOTA`).
pub fn format_units_label(amount: u64) -> (r: String)
    ensures
        r@ == units_label(amount as nat),
{
    let mut s = format_units(amount);
    push_char(&mut s, ' ');
    push_char(&mut s, 'I');
    push_char(&mut s, 'O');
    push_char(&mut s, 'T');
    push_char(&mut s, 'A');
    assert(s@ =~= units_label(amount as nat));
    s
}

/// A timestamp as UTC calendar time.
pub fn format_unlock_time(secs: u32) -> (r: Result<String, FlowError>)
    ensures
        r matches Ok(t) ==> t@ == utc_datetime_text(secs),
        r is Ok,
{
    match utc_time_text(secs) {
        Some(t) => Ok(t),
        None => Err(FlowError::InvalidTimestamp),
    }
}

/// The position of `code` in the rate table's currency codes; fails with
/// `RateUnavailable` where the table has no such entry.
pub fn rate_position(codes: &Vec<String>, code: &String) -> (r: Result<usize, FlowError>)
    ensures
        r matches Ok(i) ==> i < codes@.len() && codes@[i as int]@ == code@ && forall|j: int|
            0 <= j < i ==> codes@[j]@ != code@,
        r is Err <==> forall|j: int| 0 <= j < codes@.len() ==> codes@[j]@ != code@,
        r is Err ==> r == Err::<usize, FlowError>(FlowError::RateUnavailable),
{
    let mut i: usize = 0;
    while i < codes.len()
        invariant
            0 <= i <= codes@.len(),
            forall|j: int| 0 <= j < i ==> codes@[j]@ != code@,
        decreases codes@.len() - i,
    {
        if codes[i] == *code {
            return Ok(i);
        }
        i = i + 1;
    }
    Err(FlowError::RateUnavailable)
}

/// One line of the balance report, without the fiat columns.
#[derive(Clone, Debug)]
pub struct ReportLine {
    pub unlock_at: u32,
    pub unlock_time: String,
    pub amount: u64,
    pub amount_text: String,
    pub cumulative: u64,
    pub cumulative_text: String,
}

/// The report's line for a row of the cumulative view.
pub open spec fn line_matches(l: ReportLine, row: CumulativeRow) -> bool {
    &&& l.unlock_at == row.unlock_at
    &&& l.unlock_time@ == utc_datetime_text(row.unlock_at)
    &&& l.amount == row.amount
    &&& l.amount_text@ == units_label(row.amount as nat)
    &&& l.cumulative == row.cumulative
    &&& l.cumulative_text@ == units_label(row.cumulative as nat)
}

/// The lines of the balance report for `rows`, in their order.
pub fn report_lines(rows: &Vec<CumulativeRow>) -> (r: Result<Vec<ReportLine>, FlowError>)
    ensures
        r is Ok,
        r matches Ok(lines) ==> lines@.len() == rows@.len() && forall|i: int|
            0 <= i < rows@.len() ==> line_matches(#[trigger] lines@[i], rows@[i]),
{
    let mut lines: Vec<ReportLine> = Vec::new();
    let mut i: usize = 0;
    while i < rows.len()
        invariant
            0 <= i <= rows@.len(),
            lines@.len() == i,
            forall|k: int| 0 <= k < i ==> line_matches(#[trigger] lines@[k], rows@[k]),
        decreases rows@.len() - i,
    {
        let row = rows[i];
        let unlock_time = match format_unlock_time(row.unlock_at) {
            Ok(t) => t,
            Err(e) => {
                return Err(e);
            },
        };
        lines.push(
            ReportLine {
                unlock_at: row.unlock_at,
                unlock_time,
                amount: row.amount,
                amount_text: format_units_label(row.amount),
                cumulative: row.cumulative,
                cumulative_text: format_units_label(row.cumulative),
            },
        );
        i = i + 1;
    }
    Ok(lines)
}

} // verus!
