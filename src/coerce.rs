//! The type-coercion layer: from an engine-reported column type to the
//! order in which a cell is decoded, and from a decoded cell to its
//! canonical value.

use vstd::prelude::*;
use vstd::string::*;
use crate::models::DatabaseDriver;
use crate::text::{int_text, nat_text, push_char, push_i64, push_str, push_u64, same_text};
use crate::value::{canonical_i64, canonical_u64, is_canonical_int, Value};

verus! {

/// One way of reading a cell off the wire.
#[derive(Debug, Clone, Copy, PartialEq, Eq, Structural)]
pub enum Decoder {
    Bool,
    I8,
    I16,
    I32,
    I64,
    U64,
    F64,
    Decimal,
    Text,
    Json,
    DateTime,
    DateTimeTz,
    Date,
    Time,
    Bytes,
    Uuid,
    /// A money amount read through the engine's money type.
    Money,
    /// A money amount read as a plain integer number of cents; it is still
    /// money, and becomes `Decoded::Money`.
    MoneyCents,
    BitString,
    Interval,
    IpNetwork,
    MacAddress,
    BoolArray,
    I16Array,
    I32Array,
    I64Array,
    TextArray,
}

/// ASCII upper case folded to lower case; every other character kept.
pub open spec fn ascii_lower_char(c: char) -> char {
    if 65 <= (c as u32) <= 90 {
        ((c as u32) + 32) as char
    } else {
        c
    }
}

/// `s` with ASCII upper case folded to lower case.
pub open spec fn ascii_lower(s: Seq<char>) -> Seq<char> {
    s.map_values(|c: char| ascii_lower_char(c))
}

fn lower_char(c: char) -> (r: char)
    ensures
        r == ascii_lower_char(c),
{
    let u = c as u32;
    if 65 <= u && u <= 90 {
        let l: u8 = (u + 32) as u8;
        l as char
    } else {
        c
    }
}

/// Folds ASCII upper case to lower case.
pub fn to_ascii_lower(s: &str) -> (r: String)
    ensures
        r@ == ascii_lower(s@),
{
    let mut out = String::new();
    let n = s.unicode_len();
    let mut i: usize = 0;
    while i < n
        invariant
            n == s@.len(),
            i <= n,
            out@ =~= ascii_lower(s@.subrange(0, i as int)),
        decreases n - i,
    {
        push_char(&mut out, lower_char(s.get_char(i)));
        i = i + 1;
    }
    assert(s@.subrange(0, n as int) =~= s@);
    out
}

/// Whether `t` is one of `names`.
pub open spec fn one_of(t: Seq<char>, names: Seq<Seq<char>>) -> bool {
    exists|i: int| 0 <= i < names.len() && names[i] == t
}

/// The decode attempts for a row-store engine A column (MySQL family),
/// by lower-cased type name, in order.
pub open spec fn mysql_plan(t: Seq<char>) -> Seq<Decoder> {
    if t == "tinyint"@ {
        seq![Decoder::I8, Decoder::Bool, Decoder::I16, Decoder::Text]
    } else if t == "boolean"@ {
        seq![Decoder::Bool, Decoder::I8, Decoder::Text]
    } else if t == "smallint"@ || t == "int"@ || t == "bigint"@ || t == "year"@ {
        seq![Decoder::I64, Decoder::Text]
    } else if t == "float"@ || t == "double"@ {
        seq![Decoder::F64, Decoder::Text]
    } else if t == "decimal"@ {
        seq![Decoder::Decimal, Decoder::Text]
    } else if t == "json"@ {
        seq![Decoder::Json, Decoder::Text]
    } else if t == "datetime"@ || t == "timestamp"@ {
        seq![Decoder::DateTime, Decoder::Text]
    } else if t == "date"@ {
        seq![Decoder::Date, Decoder::Text]
    } else if t == "time"@ {
        seq![Decoder::Time, Decoder::Text]
    } else if t == "binary"@ || t == "varbinary"@ || t == "tinyblob"@ || t == "blob"@ || t == "mediumblob"@
        || t == "longblob"@ {
        seq![Decoder::Bytes]
    } else if t == "bit"@ {
        seq![Decoder::U64, Decoder::Text]
    } else {
        seq![Decoder::Text]
    }
}

/// The decode attempts for a row-store engine B column (PostgreSQL
/// family), by lower-cased type name, in order.
pub open spec fn postgres_plan(t: Seq<char>) -> Seq<Decoder> {
    if t == "bool"@ {
        seq![Decoder::Bool, Decoder::Text]
    } else if t == "int2"@ {
        seq![Decoder::I16, Decoder::Text]
    } else if t == "int4"@ {
        seq![Decoder::I32, Decoder::Text]
    } else if t == "int8"@ || t == "oid"@ {
        seq![Decoder::I64, Decoder::Text]
    } else if t == "float4"@ || t == "float8"@ {
        seq![Decoder::F64, Decoder::Text]
    } else if t == "numeric"@ {
        seq![Decoder::Decimal, Decoder::Text]
    } else if t == "money"@ {
        seq![Decoder::Money, Decoder::MoneyCents, Decoder::Text]
    } else if t == "uuid"@ {
        seq![Decoder::Uuid, Decoder::Text]
    } else if t == "json"@ || t == "jsonb"@ {
        seq![Decoder::Json, Decoder::Text]
    } else if t == "timestamp"@ {
        seq![Decoder::DateTime, Decoder::Text]
    } else if t == "timestamptz"@ {
        seq![Decoder::DateTimeTz, Decoder::Text]
    } else if t == "date"@ {
        seq![Decoder::Date, Decoder::Text]
    } else if t == "time"@ {
        seq![Decoder::Time, Decoder::Text]
    } else if t == "bytea"@ {
        seq![Decoder::Bytes]
    } else if t == "_bool"@ || t == "bool[]"@ {
        seq![Decoder::BoolArray]
    } else if t == "_int2"@ || t == "int2[]"@ {
        seq![Decoder::I16Array]
    } else if t == "_int4"@ || t == "int4[]"@ {
        seq![Decoder::I32Array]
    } else if t == "_int8"@ || t == "int8[]"@ {
        seq![Decoder::I64Array]
    } else if t == "_text"@ || t == "_varchar"@ || t == "_char"@ || t == "_bpchar"@ || t == "text[]"@
        || t == "varchar[]"@ || t == "char[]"@ || t == "bpchar[]"@ {
        seq![Decoder::TextArray]
    } else if t == "inet"@ || t == "cidr"@ {
        seq![Decoder::IpNetwork, Decoder::Text]
    } else if t == "macaddr"@ || t == "macaddr8"@ {
        seq![Decoder::MacAddress, Decoder::Text]
    } else if t == "bit"@ || t == "varbit"@ {
        seq![Decoder::BitString, Decoder::Text]
    } else if t == "interval"@ {
        seq![Decoder::Interval, Decoder::Text]
    } else {
        seq![Decoder::Text]
    }
}

/// The decode attempts for a column of an engine, keyed by its type name
/// without regard to ASCII case. The columnar engine hands back JSON that
/// is already canonical, so its cells are read as JSON.
pub open spec fn decode_plan_spec(driver: DatabaseDriver, column_type: Seq<char>) -> Seq<Decoder> {
    match driver {
        DatabaseDriver::Mysql => mysql_plan(ascii_lower(column_type)),
        DatabaseDriver::Postgres => postgres_plan(ascii_lower(column_type)),
        DatabaseDriver::Clickhouse => seq![Decoder::Json],
    }
}

fn plan(items: &[Decoder]) -> (r: Vec<Decoder>)
    ensures
        r@ == items@,
{
    let mut out: Vec<Decoder> = Vec::new();
    let mut i: usize = 0;
    while i < items.len()
        invariant
            i <= items.len(),
            out@ == items@.subrange(0, i as int),
        decreases items.len() - i,
    {
        out.push(items[i]);
        assert(out@ =~= items@.subrange(0, i as int + 1));
        i = i + 1;
    }
    assert(items@.subrange(0, items.len() as int) =~= items@);
    out
}

fn mysql_decode_plan(t: &str) -> (r: Vec<Decoder>)
    ensures
        r@ == mysql_plan(t@),
{
    if same_text(t, "tinyint") {
        plan(&[Decoder::I8, Decoder::Bool, Decoder::I16, Decoder::Text])
    } else if same_text(t, "boolean") {
        plan(&[Decoder::Bool, Decoder::I8, Decoder::Text])
    } else if same_text(t, "smallint") || same_text(t, "int") || same_text(t, "bigint") || same_text(t, "year") {
        plan(&[Decoder::I64, Decoder::Text])
    } else if same_text(t, "float") || same_text(t, "double") {
        plan(&[Decoder::F64, Decoder::Text])
    } else if same_text(t, "decimal") {
        plan(&[Decoder::Decimal, Decoder::Text])
    } else if same_text(t, "json") {
        plan(&[Decoder::Json, Decoder::Text])
    } else if same_text(t, "datetime") || same_text(t, "timestamp") {
        plan(&[Decoder::DateTime, Decoder::Text])
    } else if same_text(t, "date") {
        plan(&[Decoder::Date, Decoder::Text])
    } else if same_text(t, "time") {
        plan(&[Decoder::Time, Decoder::Text])
    } else if same_text(t, "binary") || same_text(t, "varbinary") || same_text(t, "tinyblob") || same_text(
        t,
        "blob",
    ) || same_text(t, "mediumblob") || same_text(t, "longblob") {
        plan(&[Decoder::Bytes])
    } else if same_text(t, "bit") {
        plan(&[Decoder::U64, Decoder::Text])
    } else {
        plan(&[Decoder::Text])
    }
}

fn postgres_decode_plan(t: &str) -> (r: Vec<Decoder>)
    ensures
        r@ == postgres_plan(t@),
{
    if same_text(t, "bool") {
        plan(&[Decoder::Bool, Decoder::Text])
    } else if same_text(t, "int2") {
        plan(&[Decoder::I16, Decoder::Text])
    } else if same_text(t, "int4") {
        plan(&[Decoder::I32, Decoder::Text])
    } else if same_text(t, "int8") || same_text(t, "oid") {
        plan(&[Decoder::I64, Decoder::Text])
    } else if same_text(t, "float4") || same_text(t, "float8") {
        plan(&[Decoder::F64, Decoder::Text])
    } else if same_text(t, "numeric") {
        plan(&[Decoder::Decimal, Decoder::Text])
    } else if same_text(t, "money") {
        plan(&[Decoder::Money, Decoder::MoneyCents, Decoder::Text])
    } else if same_text(t, "uuid") {
        plan(&[Decoder::Uuid, Decoder::Text])
    } else if same_text(t, "json") || same_text(t, "jsonb") {
        plan(&[Decoder::Json, Decoder::Text])
    } else if same_text(t, "timestamp") {
        plan(&[Decoder::DateTime, Decoder::Text])
    } else if same_text(t, "timestamptz") {
        plan(&[Decoder::DateTimeTz, Decoder::Text])
    } else if same_text(t, "date") {
        plan(&[Decoder::Date, Decoder::Text])
    } else if same_text(t, "time") {
        plan(&[Decoder::Time, Decoder::Text])
    } else if same_text(t, "bytea") {
        plan(&[Decoder::Bytes])
    } else if same_text(t, "_bool") || same_text(t, "bool[]") {
        plan(&[Decoder::BoolArray])
    } else if same_text(t, "_int2") || same_text(t, "int2[]") {
        plan(&[Decoder::I16Array])
    } else if same_text(t, "_int4") || same_text(t, "int4[]") {
        plan(&[Decoder::I32Array])
    } else if same_text(t, "_int8") || same_text(t, "int8[]") {
        plan(&[Decoder::I64Array])
    } else if same_text(t, "_text") || same_text(t, "_varchar") || same_text(t, "_char") || same_text(
        t,
        "_bpchar",
    ) || same_text(t, "text[]") || same_text(t, "varchar[]") || same_text(t, "char[]") || same_text(
        t,
        "bpchar[]",
    ) {
        plan(&[Decoder::TextArray])
    } else if same_text(t, "inet") || same_text(t, "cidr") {
        plan(&[Decoder::IpNetwork, Decoder::Text])
    } else if same_text(t, "macaddr") || same_text(t, "macaddr8") {
        plan(&[Decoder::MacAddress, Decoder::Text])
    } else if same_text(t, "bit") || same_text(t, "varbit") {
        plan(&[Decoder::BitString, Decoder::Text])
    } else if same_text(t, "interval") {
        plan(&[Decoder::Interval, Decoder::Text])
    } else {
        plan(&[Decoder::Text])
    }
}

/// The order in which a cell of a column of this type is decoded; the
/// first attempt that succeeds gives the cell.
pub fn decode_plan(driver: DatabaseDriver, column_type: &str) -> (r: Vec<Decoder>)
    ensures
        r@ == decode_plan_spec(driver, column_type@),
{
    match driver {
        DatabaseDriver::Mysql => {
            let t = to_ascii_lower(column_type);
            mysql_decode_plan(t.as_str())
        },
        DatabaseDriver::Postgres => {
            let t = to_ascii_lower(column_type);
            postgres_decode_plan(t.as_str())
        },
        DatabaseDriver::Clickhouse => plan(&[Decoder::Json]),
    }
}

/// A cell as a decoder read it, in plain values. A floating-point number
/// arrives as its JSON number text (`None` where it has none, such as NaN);
/// a decimal, a temporal value, a UUID or an address as its text.
#[derive(Debug)]
pub enum Decoded {
    Bool(bool),
    Int(i64),
    UInt(u64),
    Float(Option<String>),
    Decimal(String),
    Text(String),
    Json(Value),
    Bytes(u64),
    Money(i64),
    Bits(Vec<bool>),
    Interval(i32, i32, i64),
    BoolArray(Vec<bool>),
    IntArray(Vec<i64>),
    TextArray(Vec<String>),
}

/// `(binary N bytes)`.
pub open spec fn binary_text(len: nat) -> Seq<char> {
    "(binary "@ + nat_text(len) + " bytes)"@
}

/// Two decimal digits of a number below one hundred.
pub open spec fn two_digits(n: nat) -> Seq<char> {
    seq![crate::text::digit_char(n / 10), crate::text::digit_char(n % 10)]
}

/// An amount in cents as `[-]units.cc`.
pub open spec fn money_text(cents: int) -> Seq<char> {
    let a = if cents < 0 { -cents } else { cents };
    (if cents < 0 { seq!['-'] } else { Seq::<char>::empty() }) + nat_text((a / 100) as nat) + seq!['.']
        + two_digits((a % 100) as nat)
}

/// A bit string as `0` and `1` characters.
pub open spec fn bits_text(bits: Seq<bool>) -> Seq<char> {
    bits.map_values(|b: bool| if b { '1' } else { '0' })
}

/// `M months, D days, U us`.
pub open spec fn interval_text(months: int, days: int, micros: int) -> Seq<char> {
    int_text(months) + " months, "@ + int_text(days) + " days, "@ + int_text(micros) + " us"@
}

/// What a decoded cell becomes in the canonical row.
pub open spec fn is_canonical_cell(d: Decoded, v: Value) -> bool {
    match d {
        Decoded::Bool(b) => v == Value::Bool(b),
        Decoded::Int(i) => is_canonical_int(v, i as int),
        Decoded::UInt(u) => is_canonical_int(v, u as int),
        Decoded::Float(t) => match t {
            Some(n) => v is Number && v->Number_0@ == n@,
            None => v is Null,
        },
        Decoded::Decimal(t) => v is Str && v->Str_0@ == t@,
        Decoded::Text(t) => v is Str && v->Str_0@ == t@,
        Decoded::Json(j) => v == j,
        Decoded::Bytes(n) => v is Str && v->Str_0@ == binary_text(n as nat),
        Decoded::Money(c) => v is Str && v->Str_0@ == money_text(c as int),
        Decoded::Bits(bits) => v is Str && v->Str_0@ == bits_text(bits@),
        Decoded::Interval(m, d, u) => v is Str && v->Str_0@ == interval_text(m as int, d as int, u as int),
        Decoded::BoolArray(items) => v is Array && v->Array_0@.len() == items@.len() && forall|i: int|
            0 <= i < items@.len() ==> #[trigger] v->Array_0@[i] == Value::Bool(items@[i]),
        Decoded::IntArray(items) => v is Array && v->Array_0@.len() == items@.len() && forall|i: int|
            0 <= i < items@.len() ==> is_canonical_int(#[trigger] v->Array_0@[i], items@[i] as int),
        Decoded::TextArray(items) => v is Array && v->Array_0@.len() == items@.len() && forall|i: int|
            0 <= i < items@.len() ==> (#[trigger] v->Array_0@[i]) is Str && v->Array_0@[i]->Str_0@
                == items@[i]@,
    }
}

/// The decoded cells a decoder hands back: each reads one kind of cell.
pub open spec fn yields(d: Decoder, x: Decoded) -> bool {
    match d {
        Decoder::Bool => x is Bool,
        Decoder::I8 | Decoder::I16 | Decoder::I32 | Decoder::I64 => x is Int,
        Decoder::U64 => x is UInt,
        Decoder::F64 => x is Float,
        Decoder::Decimal => x is Decimal,
        Decoder::Text | Decoder::DateTime | Decoder::DateTimeTz | Decoder::Date | Decoder::Time | Decoder::Uuid
        | Decoder::IpNetwork | Decoder::MacAddress => x is Text,
        Decoder::Json => x is Json,
        Decoder::Bytes => x is Bytes,
        Decoder::Money | Decoder::MoneyCents => x is Money,
        Decoder::BitString => x is Bits,
        Decoder::Interval => x is Interval,
        Decoder::BoolArray => x is BoolArray,
        Decoder::I16Array | Decoder::I32Array | Decoder::I64Array => x is IntArray,
        Decoder::TextArray => x is TextArray,
    }
}

/// Fixed-point decimals and money amounts are never emitted as numbers:
/// whichever attempt of their plan reads the cell, the canonical value is
/// text (decimal text, `[-]units.cc`, or the raw text).
pub proof fn law_decimals_stay_text(driver: DatabaseDriver, column_type: Seq<char>, i: int, x: Decoded, v: Value)
    requires
        (driver == DatabaseDriver::Postgres && (ascii_lower(column_type) == "numeric"@ || ascii_lower(
            column_type,
        ) == "money"@)) || (driver == DatabaseDriver::Mysql && ascii_lower(column_type) == "decimal"@),
        0 <= i < decode_plan_spec(driver, column_type).len(),
        yields(decode_plan_spec(driver, column_type)[i], x),
        is_canonical_cell(x, v),
    ensures
        v is Str,
{
    let t = ascii_lower(column_type);
    reveal_strlit("numeric");
    reveal_strlit("money");
    reveal_strlit("decimal");
    reveal_strlit("tinyint");
    reveal_strlit("boolean");
    reveal_strlit("bool");
    reveal_strlit("int2");
    reveal_strlit("int4");
    reveal_strlit("int8");
    reveal_strlit("oid");
    reveal_strlit("float4");
    reveal_strlit("float8");
    reveal_strlit("smallint");
    reveal_strlit("int");
    reveal_strlit("bigint");
    reveal_strlit("year");
    reveal_strlit("float");
    reveal_strlit("double");
    if driver == DatabaseDriver::Postgres {
        if t == "numeric"@ {
            assert(t.len() == 7);
            assert(postgres_plan(t) == seq![Decoder::Decimal, Decoder::Text]);
        } else {
            assert(t.len() == 5);
            assert(postgres_plan(t) == seq![Decoder::Money, Decoder::MoneyCents, Decoder::Text]);
        }
    } else {
        assert(t.len() == 7);
        assert(t[0] == 'd');
        assert("tinyint"@[0] == 't');
        assert("boolean"@[0] == 'b');
        assert(mysql_plan(t) == seq![Decoder::Decimal, Decoder::Text]);
    }
}

/// `(binary N bytes)`, the placeholder that stands for a binary payload.
pub fn binary_placeholder(len: u64) -> (r: String)
    ensures
        r@ == binary_text(len as nat),
{
    let mut out = String::new();
    push_str(&mut out, "(binary ");
    push_u64(&mut out, len);
    push_str(&mut out, " bytes)");
    assert(out@ =~= binary_text(len as nat));
    out
}

/// Renders an amount in cents as `[-]units.cc`.
pub fn format_money(cents: i64) -> (r: String)
    ensures
        r@ == money_text(cents as int),
{
    let mut out = String::new();
    let a: u64 = if cents < 0 { (-(cents as i128)) as u64 } else { cents as u64 };
    if cents < 0 {
        push_char(&mut out, '-');
    }
    push_u64(&mut out, a / 100);
    push_char(&mut out, '.');
    let c = a % 100;
    let mut digits = String::new();
    push_u64(&mut digits, c / 10);
    push_u64(&mut digits, c % 10);
    push_str(&mut out, digits.as_str());
    assert(nat_text((c / 10) as nat) == seq![crate::text::digit_char((c / 10) as nat)]);
    assert(nat_text((c % 10) as nat) == seq![crate::text::digit_char((c % 10) as nat)]);
    assert(out@ =~= money_text(cents as int));
    out
}

/// Renders a bit string as `0` and `1` characters.
pub fn format_bits(bits: &Vec<bool>) -> (r: String)
    ensures
        r@ == bits_text(bits@),
{
    let mut out = String::new();
    let mut i: usize = 0;
    while i < bits.len()
        invariant
            i <= bits.len(),
            out@ =~= bits_text(bits@.subrange(0, i as int)),
        decreases bits.len() - i,
    {
        push_char(&mut out, if bits[i] { '1' } else { '0' });
        i = i + 1;
    }
    assert(bits@.subrange(0, bits.len() as int) =~= bits@);
    out
}

/// Renders an interval as `M months, D days, U us`.
pub fn format_interval(months: i32, days: i32, micros: i64) -> (r: String)
    ensures
        r@ == interval_text(months as int, days as int, micros as int),
{
    let mut out = String::new();
    push_i64(&mut out, months as i64);
    push_str(&mut out, " months, ");
    push_i64(&mut out, days as i64);
    push_str(&mut out, " days, ");
    push_i64(&mut out, micros);
    push_str(&mut out, " us");
    assert(out@ =~= interval_text(months as int, days as int, micros as int));
    out
}

/// Converts a decoded cell to its canonical value: integers beyond what a
/// double holds exactly become decimal strings, decimals stay text, binary
/// payloads become a length placeholder, arrays are mapped element-wise.
pub fn canonical_cell(d: Decoded) -> (r: Value)
    ensures
        is_canonical_cell(d, r),
{
    match d {
        Decoded::Bool(b) => Value::Bool(b),
        Decoded::Int(i) => canonical_i64(i),
        Decoded::UInt(u) => canonical_u64(u),
        Decoded::Float(t) => match t {
            Some(n) => Value::Number(n),
            None => Value::Null,
        },
        Decoded::Decimal(t) => Value::Str(t),
        Decoded::Text(t) => Value::Str(t),
        Decoded::Json(j) => j,
        Decoded::Bytes(n) => Value::Str(binary_placeholder(n)),
        Decoded::Money(c) => Value::Str(format_money(c)),
        Decoded::Bits(bits) => Value::Str(format_bits(&bits)),
        Decoded::Interval(m, days, u) => Value::Str(format_interval(m, days, u)),
        Decoded::BoolArray(items) => {
            let mut out: Vec<Value> = Vec::new();
            let mut i: usize = 0;
            while i < items.len()
                invariant
                    i <= items.len(),
                    out@.len() == i,
                    forall|k: int| 0 <= k < i ==> #[trigger] out@[k] == Value::Bool(items@[k]),
                decreases items.len() - i,
            {
                out.push(Value::Bool(items[i]));
                i = i + 1;
            }
            Value::Array(out)
        },
        Decoded::IntArray(items) => {
            let mut out: Vec<Value> = Vec::new();
            let mut i: usize = 0;
            while i < items.len()
                invariant
                    i <= items.len(),
                    out@.len() == i,
                    forall|k: int| 0 <= k < i ==> is_canonical_int(#[trigger] out@[k], items@[k] as int),
                decreases items.len() - i,
            {
                out.push(canonical_i64(items[i]));
                i = i + 1;
            }
            Value::Array(out)
        },
        Decoded::TextArray(items) => {
            let mut out: Vec<Value> = Vec::new();
            let mut i: usize = 0;
            while i < items.len()
                invariant
                    i <= items.len(),
                    out@.len() == i,
                    forall|k: int| 0 <= k < i ==> (#[trigger] out@[k]) is Str && out@[k]->Str_0@ == items@[k]@,
                decreases items.len() - i,
            {
                out.push(Value::Str(items[i].clone()));
                i = i + 1;
            }
            Value::Array(out)
        },
    }
}

/// The cell given by the first decode attempt that succeeded, or null when
/// none did.
pub fn first_decoded(attempts: Vec<Option<Decoded>>) -> (r: Value)
    ensures
        (forall|i: int| 0 <= i < attempts@.len() ==> (#[trigger] attempts@[i]) is None) ==> r is Null,
        forall|i: int|
            0 <= i < attempts@.len() && (#[trigger] attempts@[i]) is Some && (forall|j: int|
                0 <= j < i ==> attempts@[j] is None) ==> is_canonical_cell(attempts@[i]->0, r),
{
    let mut rest = attempts;
    let ghost all = rest@;
    let ghost mut taken: int = 0;
    while rest.len() > 0
        invariant
            all == attempts@,
            0 <= taken <= all.len(),
            rest@ == all.subrange(taken, all.len() as int),
            forall|k: int| 0 <= k < taken ==> (#[trigger] all[k]) is None,
        decreases rest.len(),
    {
        let slot = rest.remove(0);
        assert(slot == all[taken]);
        match slot {
            Some(d) => {
                let v = canonical_cell(d);
                assert forall|i: int|
                    0 <= i < all.len() && (#[trigger] all[i]) is Some && (forall|j: int|
                        0 <= j < i ==> all[j] is None) implies is_canonical_cell(all[i]->0, v) by {
                    if i > taken {
                        assert(all[taken] is Some);
                    }
                }
                assert(all[taken] is Some);
                return v;
            },
            None => {},
        }
        proof {
            taken = taken + 1;
        }
        assert(rest@ =~= all.subrange(taken, all.len() as int));
    }
    Value::Null
}

} // verus!
