//! Identifier quoting and validation, literal escaping, and the UPDATE /
//! SELECT statements built from them for a chosen quoting dialect.

use vstd::prelude::*;
use vstd::string::*;
use crate::error::DbError;
use crate::models::names_unique;
use crate::text::{doubled, int_text, push_char, push_doubling, push_i64, push_str};
use crate::value::{is_number_text, json_text, number_text_ok, to_json_text, Value};

verus! {

/// How identifiers are quoted: `"name"` or `` `name` ``.
#[derive(Debug, Clone, Copy, PartialEq, Eq, Structural)]
pub enum QuoteStyle {
    DoubleQuote,
    Backtick,
}

/// `s` between two `q` marks, with each `q` inside doubled.
pub open spec fn quoted(s: Seq<char>, q: char) -> Seq<char> {
    seq![q] + doubled(s, q) + seq![q]
}

impl QuoteStyle {
    /// The quoting character of this dialect.
    pub open spec fn mark(self) -> char {
        match self {
            QuoteStyle::DoubleQuote => '"',
            QuoteStyle::Backtick => '`',
        }
    }

    fn mark_char(&self) -> (c: char)
        ensures
            c == self.mark(),
    {
        match self {
            QuoteStyle::DoubleQuote => '"',
            QuoteStyle::Backtick => '`',
        }
    }

    /// Quotes an identifier, doubling the quoting character inside it.
    pub fn quote(&self, identifier: &str) -> (r: String)
        ensures
            r@ == quoted(identifier@, self.mark()),
    {
        let mut out = String::new();
        push_quoted(&mut out, identifier, self.mark_char());
        out
    }
}

fn push_quoted(out: &mut String, s: &str, q: char)
    ensures
        final(out)@ == old(out)@ + quoted(s@, q),
{
    push_char(out, q);
    push_doubling(out, s, q);
    push_char(out, q);
    assert(out@ =~= old(out)@ + quoted(s@, q));
}

/// A letter of `[A-Za-z]` or `_`.
pub open spec fn is_ident_start(c: char) -> bool {
    (65 <= (c as u32) <= 90) || (97 <= (c as u32) <= 122) || c == '_'
}

/// A character of `[A-Za-z0-9_.]`.
pub open spec fn is_ident_char(c: char) -> bool {
    is_ident_start(c) || (48 <= (c as u32) <= 57) || c == '.'
}

/// `s` matches `[A-Za-z_][A-Za-z0-9_.]*`.
pub open spec fn is_valid_identifier(s: Seq<char>) -> bool {
    &&& s.len() > 0
    &&& is_ident_start(s[0])
    &&& forall|i: int| 0 <= i < s.len() ==> is_ident_char(#[trigger] s[i])
}

fn ident_start(c: char) -> (r: bool)
    ensures
        r == is_ident_start(c),
{
    let u = c as u32;
    (65 <= u && u <= 90) || (97 <= u && u <= 122) || c == '_'
}

fn ident_char(c: char) -> (r: bool)
    ensures
        r == is_ident_char(c),
{
    let u = c as u32;
    ident_start(c) || (48 <= u && u <= 57) || c == '.'
}

/// Checks that `name` is safe to splice into SQL as an identifier.
pub fn validate_identifier(name: &str) -> (r: Result<(), DbError>)
    ensures
        r is Ok <==> is_valid_identifier(name@),
        r is Err ==> r->Err_0 is InvalidIdentifier,
{
    let n = name.unicode_len();
    if n == 0 {
        return Err(DbError::InvalidIdentifier(String::from_str("Empty identifier")));
    }
    let first = name.get_char(0);
    if !ident_start(first) {
        let mut m = String::new();
        push_str(&mut m, "Identifier must start with letter or underscore: ");
        push_str(&mut m, name);
        return Err(DbError::InvalidIdentifier(m));
    }
    let mut i: usize = 0;
    while i < n
        invariant
            n == name@.len(),
            i <= n,
            forall|j: int| 0 <= j < i ==> is_ident_char(#[trigger] name@[j]),
        decreases n - i,
    {
        let c = name.get_char(i);
        if !ident_char(c) {
            let mut m = String::new();
            push_str(&mut m, "Invalid character '");
            push_char(&mut m, c);
            push_str(&mut m, "' in identifier: ");
            push_str(&mut m, name);
            return Err(DbError::InvalidIdentifier(m));
        }
        i = i + 1;
    }
    Ok(())
}

/// A single-quoted SQL string literal holding `s`.
pub open spec fn sql_string(s: Seq<char>) -> Seq<char> {
    seq!['\''] + doubled(s, '\'') + seq!['\'']
}

/// The SQL literal of a value: numbers and booleans bare, null as `NULL`,
/// strings single-quoted with quotes doubled, and any other value as its
/// JSON text under the same quoting. Number text that is not made of number
/// characters alone is quoted like a string, so it can never break out of
/// the literal.
pub open spec fn escaped_value(v: Value) -> Seq<char> {
    match v {
        Value::Number(n) => if is_number_text(n@) { n@ } else { sql_string(n@) },
        Value::Bool(b) => if b { "true"@ } else { "false"@ },
        Value::Null => "NULL"@,
        Value::Str(s) => sql_string(s@),
        _ => sql_string(json_text(v)),
    }
}

fn push_sql_string(out: &mut String, s: &str)
    ensures
        final(out)@ == old(out)@ + sql_string(s@),
{
    push_char(out, '\'');
    push_doubling(out, s, '\'');
    push_char(out, '\'');
    assert(out@ =~= old(out)@ + sql_string(s@));
}

fn push_escaped(out: &mut String, value: &Value)
    ensures
        final(out)@ == old(out)@ + escaped_value(*value),
{
    match value {
        Value::Number(n) => {
            if number_text_ok(n.as_str()) {
                push_str(out, n.as_str());
            } else {
                push_sql_string(out, n.as_str());
            }
        },
        Value::Bool(b) => {
            if *b {
                push_str(out, "true");
            } else {
                push_str(out, "false");
            }
        },
        Value::Null => push_str(out, "NULL"),
        Value::Str(s) => push_sql_string(out, s.as_str()),
        _ => {
            let text = to_json_text(value);
            push_sql_string(out, text.as_str());
        },
    }
}

/// Renders a value as a SQL literal.
pub fn escape_value(value: &Value) -> (r: String)
    ensures
        r@ == escaped_value(*value),
{
    let mut out = String::new();
    push_escaped(&mut out, value);
    assert(out@ =~= escaped_value(*value));
    out
}

/// Reads back text written by `doubled`: each doubled `c` becomes one.
pub open spec fn undoubled(s: Seq<char>, c: char) -> Seq<char>
    decreases s.len(),
{
    if s.len() == 0 {
        s
    } else if s.len() >= 2 && s.last() == c && s[s.len() - 2] == c {
        undoubled(s.subrange(0, s.len() - 2), c).push(c)
    } else {
        undoubled(s.drop_last(), c).push(s.last())
    }
}

/// Doubling a quoting character is undone by reading the pairs back.
pub proof fn lemma_doubled_round_trip(s: Seq<char>, c: char)
    ensures
        undoubled(doubled(s, c), c) == s,
    decreases s.len(),
{
    if s.len() > 0 {
        lemma_doubled_round_trip(s.drop_last(), c);
        let d = doubled(s.drop_last(), c);
        if s.last() == c {
            let e = d.push(c).push(c);
            assert(e.subrange(0, e.len() - 2) =~= d);
        } else {
            assert(d.push(s.last()).drop_last() =~= d);
        }
        assert(undoubled(doubled(s, c), c) =~= s);
    }
}

/// A string escapes to a single-quoted literal whose inside reads back as
/// the text it came from; null escapes to `NULL`, and numbers and booleans
/// stay bare.
pub proof fn law_escape_round_trip(v: Value)
    ensures
        v is Str ==> {
            let e = escaped_value(v);
            &&& e.len() >= 2
            &&& e[0] == '\''
            &&& e.last() == '\''
            &&& undoubled(e.subrange(1, e.len() - 1), '\'') == v->Str_0@
        },
        v is Null ==> escaped_value(v) == "NULL"@,
        v is Number && is_number_text(v->Number_0@) ==> escaped_value(v) == v->Number_0@ && !escaped_value(
            v,
        ).contains('\''),
        v is Bool ==> escaped_value(v) == if v->Bool_0 { "true"@ } else { "false"@ },
        v is Bool ==> !escaped_value(v).contains('\''),
{
    reveal_strlit("true");
    reveal_strlit("false");
    if v is Number && is_number_text(v->Number_0@) {
        let n = v->Number_0@;
        assert forall|i: int| 0 <= i < n.len() implies n[i] != '\'' by {
            assert(crate::value::is_number_char(n[i]));
        }
    }
    if v is Bool {
        let e = escaped_value(v);
        assert forall|i: int| 0 <= i < e.len() implies e[i] != '\'' by {}
    }
    if v is Str {
        let s = v->Str_0@;
        let e = escaped_value(v);
        lemma_doubled_round_trip(s, '\'');
        assert(e.subrange(1, e.len() - 1) =~= doubled(s, '\''));
    }
}

/// A quoted identifier is wrapped in the dialect's mark, and its inside
/// reads back as the identifier, so no mark inside can end it early.
pub proof fn law_quote_round_trip(s: Seq<char>, style: QuoteStyle)
    ensures
        ({
            let q = quoted(s, style.mark());
            &&& q.len() >= 2
            &&& q[0] == style.mark()
            &&& q.last() == style.mark()
            &&& undoubled(q.subrange(1, q.len() - 1), style.mark()) == s
        }),
{
    let q = quoted(s, style.mark());
    lemma_doubled_round_trip(s, style.mark());
    assert(q.subrange(1, q.len() - 1) =~= doubled(s, style.mark()));
}

/// `"col" = literal`.
pub open spec fn assignment(field: (String, Value), q: char) -> Seq<char> {
    quoted(field.0@, q) + " = "@ + escaped_value(field.1)
}

/// `"col" IS NULL` for a null key, `"col" = literal` otherwise.
pub open spec fn condition(field: (String, Value), q: char) -> Seq<char> {
    if field.1 is Null {
        quoted(field.0@, q) + " IS NULL"@
    } else {
        assignment(field, q)
    }
}

/// The assignments of `fields`, separated by `, `.
pub open spec fn set_list(fields: Seq<(String, Value)>, q: char) -> Seq<char>
    decreases fields.len(),
{
    if fields.len() == 0 {
        Seq::<char>::empty()
    } else if fields.len() == 1 {
        assignment(fields[0], q)
    } else {
        set_list(fields.drop_last(), q) + ", "@ + assignment(fields.last(), q)
    }
}

/// The conditions of `fields`, separated by ` AND `.
pub open spec fn where_list(fields: Seq<(String, Value)>, q: char) -> Seq<char>
    decreases fields.len(),
{
    if fields.len() == 0 {
        Seq::<char>::empty()
    } else if fields.len() == 1 {
        condition(fields[0], q)
    } else {
        where_list(fields.drop_last(), q) + " AND "@ + condition(fields.last(), q)
    }
}

/// Every column name in `fields` is a valid identifier.
pub open spec fn all_names_valid(fields: Seq<(String, Value)>) -> bool {
    forall|i: int| 0 <= i < fields.len() ==> is_valid_identifier(#[trigger] fields[i].0@)
}

/// The text of the UPDATE statement for one row.
pub open spec fn update_sql(
    table: Seq<char>,
    changes: Seq<(String, Value)>,
    keys: Seq<(String, Value)>,
    q: char,
) -> Seq<char> {
    "UPDATE "@ + quoted(table, q) + " SET "@ + set_list(changes, q) + " WHERE "@ + where_list(keys, q)
}

/// Whether an UPDATE can be built from these parts.
pub open spec fn update_buildable(
    table: Seq<char>,
    changes: Seq<(String, Value)>,
    keys: Seq<(String, Value)>,
) -> bool {
    &&& is_valid_identifier(table)
    &&& changes.len() > 0
    &&& keys.len() > 0
    &&& all_names_valid(changes)
    &&& all_names_valid(keys)
}

fn check_names(fields: &Vec<(String, Value)>) -> (r: Result<(), DbError>)
    ensures
        r is Ok <==> all_names_valid(fields@),
        r is Err ==> r->Err_0 is InvalidIdentifier,
{
    let mut i: usize = 0;
    while i < fields.len()
        invariant
            i <= fields.len(),
            forall|j: int| 0 <= j < i ==> is_valid_identifier(#[trigger] fields@[j].0@),
        decreases fields.len() - i,
    {
        let r = validate_identifier(fields[i].0.as_str());
        if r.is_err() {
            return r;
        }
        i = i + 1;
    }
    Ok(())
}

/// Builds `UPDATE <table> SET <changes> WHERE <keys>` with every name
/// validated and quoted and every value escaped. An empty change set is
/// refused first; then every name is validated, so an invalid name is
/// always reported as such; only then is an empty key list refused, since
/// it would leave the row unidentified.
pub fn build_update_sql(
    table_name: &str,
    changes: &Vec<(String, Value)>,
    primary_keys: &Vec<(String, Value)>,
    quote_style: QuoteStyle,
) -> (r: Result<String, DbError>)
    requires
        names_unique(changes@),
        names_unique(primary_keys@),
    ensures
        r is Ok <==> update_buildable(table_name@, changes@, primary_keys@),
        r is Ok ==> r->Ok_0@ == update_sql(table_name@, changes@, primary_keys@, quote_style.mark()),
        !is_valid_identifier(table_name@) ==> r is Err && r->Err_0 is InvalidIdentifier,
        is_valid_identifier(table_name@) && changes@.len() == 0 ==> r is Err && r->Err_0 is Config
            && r->Err_0->Config_0@ == "No changes provided"@,
        changes@.len() > 0 && !(is_valid_identifier(table_name@) && all_names_valid(changes@) && all_names_valid(
            primary_keys@,
        )) ==> r is Err && r->Err_0 is InvalidIdentifier,
        is_valid_identifier(table_name@) && changes@.len() > 0 && all_names_valid(changes@) && all_names_valid(
            primary_keys@,
        ) && primary_keys@.len() == 0 ==> r is Err && r->Err_0 is Config && r->Err_0->Config_0@
            == "No primary keys provided"@,
{
    validate_identifier(table_name)?;
    if changes.len() == 0 {
        return Err(DbError::Config(String::from_str("No changes provided")));
    }
    check_names(changes)?;
    check_names(primary_keys)?;
    if primary_keys.len() == 0 {
        return Err(DbError::Config(String::from_str("No primary keys provided")));
    }
    let q = quote_style.mark_char();
    let mut out = String::new();
    push_str(&mut out, "UPDATE ");
    push_quoted(&mut out, table_name, q);
    push_str(&mut out, " SET ");
    let ghost head = out@;
    let mut i: usize = 0;
    while i < changes.len()
        invariant
            i <= changes.len(),
            q == quote_style.mark(),
            out@ == head + set_list(changes@.subrange(0, i as int), q),
        decreases changes.len() - i,
    {
        assert(changes@.subrange(0, i as int + 1).drop_last() =~= changes@.subrange(0, i as int));
        if i > 0 {
            push_str(&mut out, ", ");
        }
        push_quoted(&mut out, changes[i].0.as_str(), q);
        push_str(&mut out, " = ");
        push_escaped(&mut out, &changes[i].1);
        assert(out@ =~= head + set_list(changes@.subrange(0, i as int + 1), q));
        i = i + 1;
    }
    assert(changes@.subrange(0, changes.len() as int) =~= changes@);
    push_str(&mut out, " WHERE ");
    let ghost mid = out@;
    let mut k: usize = 0;
    while k < primary_keys.len()
        invariant
            k <= primary_keys.len(),
            q == quote_style.mark(),
            out@ == mid + where_list(primary_keys@.subrange(0, k as int), q),
        decreases primary_keys.len() - k,
    {
        assert(primary_keys@.subrange(0, k as int + 1).drop_last() =~= primary_keys@.subrange(0, k as int));
        if k > 0 {
            push_str(&mut out, " AND ");
        }
        push_quoted(&mut out, primary_keys[k].0.as_str(), q);
        match &primary_keys[k].1 {
            Value::Null => push_str(&mut out, " IS NULL"),
            other => {
                push_str(&mut out, " = ");
                push_escaped(&mut out, other);
            },
        }
        assert(out@ =~= mid + where_list(primary_keys@.subrange(0, k as int + 1), q));
        k = k + 1;
    }
    assert(primary_keys@.subrange(0, primary_keys.len() as int) =~= primary_keys@);
    assert(out@ =~= update_sql(table_name@, changes@, primary_keys@, q));
    Ok(out)
}

/// The text of a bounded `SELECT *`.
pub open spec fn select_sql(table: Seq<char>, limit: int, offset: int, q: char) -> Seq<char> {
    "SELECT * FROM "@ + quoted(table, q) + " LIMIT "@ + int_text(limit) + " OFFSET "@ + int_text(offset)
}

/// Builds `SELECT * FROM <table> LIMIT <limit> OFFSET <offset>`.
pub fn build_select_sql(table_name: &str, limit: i32, offset: i32, quote_style: QuoteStyle) -> (r:
    Result<String, DbError>)
    ensures
        r is Ok <==> is_valid_identifier(table_name@),
        r is Ok ==> r->Ok_0@ == select_sql(table_name@, limit as int, offset as int, quote_style.mark()),
        r is Err ==> r->Err_0 is InvalidIdentifier,
{
    validate_identifier(table_name)?;
    let mut out = String::new();
    push_str(&mut out, "SELECT * FROM ");
    push_quoted(&mut out, table_name, quote_style.mark_char());
    push_str(&mut out, " LIMIT ");
    push_i64(&mut out, limit as i64);
    push_str(&mut out, " OFFSET ");
    push_i64(&mut out, offset as i64);
    assert(out@ =~= select_sql(table_name@, limit as int, offset as int, quote_style.mark()));
    Ok(out)
}

} // verus!
