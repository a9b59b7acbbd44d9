//! Dashboard figures: the uptime text and the values read off probe rows.

use vstd::prelude::*;
use vstd::string::*;
use crate::export::row_lookup;
use crate::models::Row;
use crate::parse::{decimal_in, parse_decimal};
use crate::text::{int_text, push_char, push_i64, push_str};
use crate::value::Value;

verus! {

/// A time component written at least two wide, zero-padded: `07`, `42`,
/// `-3`.
pub open spec fn pad2(i: int) -> Seq<char> {
    if 0 <= i < 10 {
        seq!['0'] + int_text(i)
    } else {
        int_text(i)
    }
}

/// `t` with the sign of `s`: integer division and remainder truncate
/// toward zero, so each component of a negative duration is negative.
pub open spec fn signed_part(s: int, t: int) -> int {
    if s < 0 { -t } else { t }
}

/// `[Nd ]hh:mm:ss` for a number of seconds; the day count appears only
/// when positive.
pub open spec fn uptime_text(seconds: int) -> Seq<char> {
    let t = if seconds < 0 { -seconds } else { seconds };
    let days = signed_part(seconds, t / 86400);
    let hours = signed_part(seconds, (t % 86400) / 3600);
    let minutes = signed_part(seconds, (t % 3600) / 60);
    let secs = signed_part(seconds, t % 60);
    let clock = pad2(hours) + seq![':'] + pad2(minutes) + seq![':'] + pad2(secs);
    if days > 0 {
        int_text(days) + seq!['d', ' '] + clock
    } else {
        clock
    }
}

fn push_pad2(out: &mut String, i: i64)
    ensures
        final(out)@ == old(out)@ + pad2(i as int),
{
    if 0 <= i && i < 10 {
        push_char(out, '0');
    }
    push_i64(out, i);
    assert(out@ =~= old(out)@ + pad2(i as int));
}

/// Renders an uptime in seconds as `[Nd ]hh:mm:ss`.
pub fn format_uptime(seconds: i64) -> (r: String)
    ensures
        r@ == uptime_text(seconds as int),
{
    let t: u64 = if seconds < 0 { (-(seconds as i128)) as u64 } else { seconds as u64 };
    let neg = seconds < 0;
    let d = (t / 86400) as i64;
    let h = ((t % 86400) / 3600) as i64;
    let m = ((t % 3600) / 60) as i64;
    let s = (t % 60) as i64;
    let days = if neg { -d } else { d };
    let hours = if neg { -h } else { h };
    let minutes = if neg { -m } else { m };
    let secs = if neg { -s } else { s };
    let mut out = String::new();
    if days > 0 {
        push_i64(&mut out, days);
        push_str(&mut out, "d ");
        proof { reveal_strlit("d "); }
    }
    let ghost head = out@;
    push_pad2(&mut out, hours);
    push_char(&mut out, ':');
    push_pad2(&mut out, minutes);
    push_char(&mut out, ':');
    push_pad2(&mut out, secs);
    assert(out@ =~= uptime_text(seconds as int));
    out
}

/// The text in column `col` of the first row, if it is a string.
pub open spec fn first_text(rows: Seq<Row>, col: Seq<char>) -> Option<Seq<char>> {
    if rows.len() > 0 && row_lookup(rows[0]@, col) is Some && row_lookup(rows[0]@, col)->0 is Str {
        Some(row_lookup(rows[0]@, col)->0->Str_0@)
    } else {
        None
    }
}

/// The text in column `col` of the first row, or `default`.
pub fn first_text_or(rows: &Vec<Row>, col: &str, default: &str) -> (r: String)
    ensures
        first_text(rows@, col@) is Some ==> r@ == first_text(rows@, col@)->0,
        first_text(rows@, col@) is None ==> r@ == default@,
{
    if rows.len() > 0 {
        match crate::export::row_value(&rows[0], col) {
            Some(Value::Str(s)) => return s.clone(),
            _ => {},
        }
    }
    String::from_str(default)
}

/// The count in column `col` of the first row, written as a number or as
/// decimal text (64-bit counts arrive quoted).
pub open spec fn first_count(rows: Seq<Row>, col: Seq<char>) -> Option<int> {
    if rows.len() > 0 && row_lookup(rows[0]@, col) is Some {
        match row_lookup(rows[0]@, col)->0 {
            Value::Number(n) => decimal_in(n@, false, 0, i64::MAX as int),
            Value::Str(s) => decimal_in(s@, false, 0, i64::MAX as int),
            _ => None,
        }
    } else {
        None
    }
}

/// The count in column `col` of the first row, or zero.
pub fn first_count_or_zero(rows: &Vec<Row>, col: &str) -> (r: i64)
    ensures
        first_count(rows@, col@) is Some ==> r as int == first_count(rows@, col@)->0,
        first_count(rows@, col@) is None ==> r == 0,
{
    if rows.len() == 0 {
        return 0;
    }
    let text = match crate::export::row_value(&rows[0], col) {
        Some(Value::Number(n)) => n.as_str(),
        Some(Value::Str(s)) => s.as_str(),
        _ => return 0,
    };
    match parse_decimal(text, false, 0, i64::MAX) {
        Some(v) => v,
        None => 0,
    }
}

/// The strings in column `col`, in row order; rows where it is missing or
/// not a string are skipped.
pub open spec fn text_column_spec(rows: Seq<Row>, col: Seq<char>) -> Seq<Seq<char>>
    decreases rows.len(),
{
    if rows.len() == 0 {
        Seq::<Seq<char>>::empty()
    } else {
        let rest = text_column_spec(rows.drop_last(), col);
        let v = row_lookup(rows.last()@, col);
        if v is Some && v->0 is Str {
            rest.push(v->0->Str_0@)
        } else {
            rest
        }
    }
}

/// Collects the strings in column `col`.
pub fn text_column(rows: &Vec<Row>, col: &str) -> (r: Vec<String>)
    ensures
        r.deep_view() == text_column_spec(rows@, col@),
{
    let mut out: Vec<String> = Vec::new();
    let mut i: usize = 0;
    while i < rows.len()
        invariant
            i <= rows.len(),
            out.deep_view() == text_column_spec(rows@.subrange(0, i as int), col@),
        decreases rows.len() - i,
    {
        assert(rows@.subrange(0, i as int + 1).drop_last() =~= rows@.subrange(0, i as int));
        let ghost before = out.deep_view();
        match crate::export::row_value(&rows[i], col) {
            Some(Value::Str(s)) => {
                out.push(s.clone());
                assert(out.deep_view() =~= before.push(s@));
            },
            _ => {},
        }
        assert(out.deep_view() =~= text_column_spec(rows@.subrange(0, i as int + 1), col@));
        i = i + 1;
    }
    assert(rows@.subrange(0, rows.len() as int) =~= rows@);
    out
}

} // verus!
