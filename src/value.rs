//! The canonical dynamic value that every engine's wire types are coerced
//! into, and its compact JSON text.

use vstd::prelude::*;
use vstd::string::*;
use crate::text::{push_char, push_str, push_u64, push_i64, int_text, nat_text};

verus! {

broadcast use vstd::std_specs::vec::group_vec_axioms, vstd::seq::group_seq_axioms;

/// A canonical cell value. A number is held as its JSON number text, so
/// integers of any width and decimals keep every digit. Nothing forces
/// that text to be number text (`is_number_text`): wherever a number is
/// written bare (SQL literals, JSON), text that is not number text is
/// written as a string instead, so it can never break out of its literal.
#[derive(Debug)]
pub enum Value {
    Null,
    Bool(bool),
    Number(String),
    Str(String),
    Array(Vec<Value>),
    Object(Vec<(String, Value)>),
}

/// Largest magnitude below which every integer is exact in an IEEE-754 double.
pub const SAFE_INTEGER_BOUND: u64 = 9007199254740992;

/// An integer that a double-precision consumer reads without loss.
pub open spec fn fits_double(i: int) -> bool {
    -(SAFE_INTEGER_BOUND as int) < i < SAFE_INTEGER_BOUND as int
}

/// `v` is the canonical form of the integer `i`: a number when it fits a
/// double exactly, its decimal text as a string otherwise.
pub open spec fn is_canonical_int(v: Value, i: int) -> bool {
    if fits_double(i) {
        v is Number && v->Number_0@ == int_text(i)
    } else {
        v is Str && v->Str_0@ == int_text(i)
    }
}

/// Canonical value of a signed integer.
pub fn canonical_i64(i: i64) -> (r: Value)
    ensures
        is_canonical_int(r, i as int),
{
    let mut s = String::new();
    push_i64(&mut s, i);
    assert(s@ =~= int_text(i as int));
    if -(SAFE_INTEGER_BOUND as i128) < i as i128 && (i as i128) < SAFE_INTEGER_BOUND as i128 {
        Value::Number(s)
    } else {
        Value::Str(s)
    }
}

/// Canonical value of an unsigned integer.
pub fn canonical_u64(i: u64) -> (r: Value)
    ensures
        is_canonical_int(r, i as int),
{
    let mut s = String::new();
    push_u64(&mut s, i);
    assert(s@ =~= int_text(i as int));
    if i < SAFE_INTEGER_BOUND {
        Value::Number(s)
    } else {
        Value::Str(s)
    }
}

/// Integers at or beyond 2^53 in magnitude reach consumers as decimal
/// strings, never as numbers; smaller ones as numbers.
pub proof fn law_wide_integers_are_strings(v: Value, i: int)
    requires
        is_canonical_int(v, i),
    ensures
        i >= SAFE_INTEGER_BOUND ==> v is Str && v->Str_0@ == int_text(i),
        i <= -(SAFE_INTEGER_BOUND as int) ==> v is Str && v->Str_0@ == int_text(i),
        fits_double(i) ==> v is Number && v->Number_0@ == int_text(i),
{
}

/// Lower-case hexadecimal digit.
pub open spec fn hex_char(d: nat) -> char {
    if d < 10 {
        crate::text::digit_char(d)
    } else if d == 10 { 'a' }
    else if d == 11 { 'b' }
    else if d == 12 { 'c' }
    else if d == 13 { 'd' }
    else if d == 14 { 'e' }
    else { 'f' }
}

/// How one character is written inside a JSON string literal.
pub open spec fn json_char(c: char) -> Seq<char> {
    if c == '"' {
        seq!['\\', '"']
    } else if c == '\\' {
        seq!['\\', '\\']
    } else if c == '\n' {
        seq!['\\', 'n']
    } else if c == '\r' {
        seq!['\\', 'r']
    } else if c == '\t' {
        seq!['\\', 't']
    } else if (c as u32) == 8 {
        seq!['\\', 'b']
    } else if (c as u32) == 12 {
        seq!['\\', 'f']
    } else if (c as u32) < 32 {
        seq!['\\', 'u', '0', '0', hex_char((c as u32 / 16) as nat), hex_char((c as u32 % 16) as nat)]
    } else {
        seq![c]
    }
}

/// The characters of `s`, each written as in a JSON string literal.
pub open spec fn json_escaped(s: Seq<char>) -> Seq<char>
    decreases s.len(),
{
    if s.len() == 0 {
        Seq::<char>::empty()
    } else {
        json_escaped(s.drop_last()) + json_char(s.last())
    }
}

/// A JSON string literal holding `s`.
pub open spec fn json_string(s: Seq<char>) -> Seq<char> {
    seq!['"'] + json_escaped(s) + seq!['"']
}

/// A character that may appear in number text: a digit, a sign, a point or
/// an exponent mark.
pub open spec fn is_number_char(c: char) -> bool {
    (48 <= (c as u32) <= 57) || c == '-' || c == '+' || c == '.' || c == 'e' || c == 'E'
}

/// Text that can stand bare as a number literal: not empty, and nothing
/// but number characters (so never a quote, a space or a separator).
pub open spec fn is_number_text(s: Seq<char>) -> bool {
    s.len() > 0 && forall|i: int| 0 <= i < s.len() ==> is_number_char(#[trigger] s[i])
}

/// Whether `s` can stand bare as a number literal.
pub fn number_text_ok(s: &str) -> (r: bool)
    ensures
        r == is_number_text(s@),
{
    let n = s.unicode_len();
    if n == 0 {
        return false;
    }
    let mut i: usize = 0;
    while i < n
        invariant
            n == s@.len(),
            i <= n,
            forall|j: int| 0 <= j < i ==> is_number_char(#[trigger] s@[j]),
        decreases n - i,
    {
        let c = s.get_char(i);
        let u = c as u32;
        if !((48 <= u && u <= 57) || c == '-' || c == '+' || c == '.' || c == 'e' || c == 'E') {
            return false;
        }
        i = i + 1;
    }
    true
}

/// Compact JSON text of a value: no whitespace, members in their order. A
/// number whose text is not number text is written as a string.
pub open spec fn json_text(v: Value) -> Seq<char>
    decreases v,
{
    match v {
        Value::Null => seq!['n', 'u', 'l', 'l'],
        Value::Bool(b) => if b { seq!['t', 'r', 'u', 'e'] } else { seq!['f', 'a', 'l', 's', 'e'] },
        Value::Number(n) => if is_number_text(n@) { n@ } else { json_string(n@) },
        Value::Str(s) => json_string(s@),
        Value::Array(items) => seq!['['] + json_items(items@) + seq![']'],
        Value::Object(fields) => seq!['{'] + json_members(fields@) + seq!['}'],
    }
}

/// Comma-separated JSON texts of a sequence of values.
pub open spec fn json_items(items: Seq<Value>) -> Seq<char>
    decreases items,
{
    if items.len() == 0 {
        Seq::<char>::empty()
    } else if items.len() == 1 {
        json_text(items[0])
    } else {
        json_items(items.drop_last()) + seq![','] + json_text(items.last())
    }
}

/// Comma-separated `"key":value` members of a JSON object.
pub open spec fn json_members(fields: Seq<(String, Value)>) -> Seq<char>
    decreases fields,
{
    if fields.len() == 0 {
        Seq::<char>::empty()
    } else if fields.len() == 1 {
        json_string(fields[0].0@) + seq![':'] + json_text(fields[0].1)
    } else {
        json_members(fields.drop_last()) + seq![','] + json_string(fields.last().0@) + seq![':']
            + json_text(fields.last().1)
    }
}

fn hex(d: u32) -> (c: char)
    requires
        d < 16,
    ensures
        c == hex_char(d as nat),
{
    if d < 10 {
        if d == 0 { '0' } else if d == 1 { '1' } else if d == 2 { '2' } else if d == 3 { '3' }
        else if d == 4 { '4' } else if d == 5 { '5' } else if d == 6 { '6' } else if d == 7 { '7' }
        else if d == 8 { '8' } else { '9' }
    } else if d == 10 { 'a' }
    else if d == 11 { 'b' }
    else if d == 12 { 'c' }
    else if d == 13 { 'd' }
    else if d == 14 { 'e' }
    else { 'f' }
}

fn push_json_char(out: &mut String, c: char)
    ensures
        final(out)@ == old(out)@ + json_char(c),
{
    let code = c as u32;
    if c == '"' {
        push_char(out, '\\');
        push_char(out, '"');
    } else if c == '\\' {
        push_char(out, '\\');
        push_char(out, '\\');
    } else if c == '\n' {
        push_char(out, '\\');
        push_char(out, 'n');
    } else if c == '\r' {
        push_char(out, '\\');
        push_char(out, 'r');
    } else if c == '\t' {
        push_char(out, '\\');
        push_char(out, 't');
    } else if code == 8 {
        push_char(out, '\\');
        push_char(out, 'b');
    } else if code == 12 {
        push_char(out, '\\');
        push_char(out, 'f');
    } else if code < 32 {
        push_char(out, '\\');
        push_char(out, 'u');
        push_char(out, '0');
        push_char(out, '0');
        push_char(out, hex(code / 16));
        push_char(out, hex(code % 16));
    } else {
        push_char(out, c);
    }
    assert(out@ =~= old(out)@ + json_char(c));
}

/// Appends a JSON string literal holding `s`.
pub fn push_json_string(out: &mut String, s: &str)
    ensures
        final(out)@ == old(out)@ + json_string(s@),
{
    push_char(out, '"');
    let n = s.unicode_len();
    let mut i: usize = 0;
    while i < n
        invariant
            n == s@.len(),
            i <= n,
            out@ == old(out)@ + seq!['"'] + json_escaped(s@.subrange(0, i as int)),
        decreases n - i,
    {
        let c = s.get_char(i);
        assert(s@.subrange(0, i as int + 1).drop_last() =~= s@.subrange(0, i as int));
        push_json_char(out, c);
        assert(out@ =~= old(out)@ + seq!['"'] + json_escaped(s@.subrange(0, i as int + 1)));
        i = i + 1;
    }
    assert(s@.subrange(0, n as int) =~= s@);
    push_char(out, '"');
    assert(out@ =~= old(out)@ + json_string(s@));
}

/// Appends the compact JSON text of `v`.
pub fn push_json(out: &mut String, v: &Value)
    ensures
        final(out)@ == old(out)@ + json_text(*v),
    decreases v,
{
    match v {
        Value::Null => {
            push_str(out, "null");
            proof { reveal_strlit("null"); }
            assert(out@ =~= old(out)@ + json_text(*v));
        },
        Value::Bool(b) => {
            if *b {
                push_str(out, "true");
                proof { reveal_strlit("true"); }
            } else {
                push_str(out, "false");
                proof { reveal_strlit("false"); }
            }
            assert(out@ =~= old(out)@ + json_text(*v));
        },
        Value::Number(n) => {
            if number_text_ok(n.as_str()) {
                push_str(out, n.as_str());
            } else {
                push_json_string(out, n.as_str());
            }
        },
        Value::Str(s) => {
            push_json_string(out, s.as_str());
        },
        Value::Array(items) => {
            push_char(out, '[');
            let mut i: usize = 0;
            while i < items.len()
                invariant
                    *v is Array,
                    (*v)->Array_0 == *items,
                    i <= items.len(),
                    out@ == old(out)@ + seq!['['] + json_items(items@.subrange(0, i as int)),
                decreases items.len() - i,
            {
                assert(items@.subrange(0, i as int + 1).drop_last() =~= items@.subrange(0, i as int));
                if i > 0 {
                    push_char(out, ',');
                }
                proof {
                    assert(decreases_to!(*v => (*v)->Array_0));
                    assert(decreases_to!((*v)->Array_0 => (*v)->Array_0@));
                    assert(decreases_to!((*v)->Array_0@ => (*v)->Array_0@[i as int]));
                    assert(decreases_to!(*v => items@[i as int]));
                }
                push_json(out, &items[i]);
                assert(out@ =~= old(out)@ + seq!['['] + json_items(items@.subrange(0, i as int + 1)));
                i = i + 1;
            }
            assert(items@.subrange(0, items.len() as int) =~= items@);
            push_char(out, ']');
            assert(out@ =~= old(out)@ + json_text(*v));
        },
        Value::Object(fields) => {
            push_char(out, '{');
            let mut i: usize = 0;
            while i < fields.len()
                invariant
                    *v is Object,
                    (*v)->Object_0 == *fields,
                    i <= fields.len(),
                    out@ == old(out)@ + seq!['{'] + json_members(fields@.subrange(0, i as int)),
                decreases fields.len() - i,
            {
                assert(fields@.subrange(0, i as int + 1).drop_last() =~= fields@.subrange(0, i as int));
                if i > 0 {
                    push_char(out, ',');
                }
                let field = &fields[i];
                push_json_string(out, field.0.as_str());
                push_char(out, ':');
                proof {
                    assert(decreases_to!(*v => (*v)->Object_0));
                    assert(decreases_to!((*v)->Object_0 => (*v)->Object_0@));
                    assert(decreases_to!((*v)->Object_0@ => (*v)->Object_0@[i as int]));
                    assert(decreases_to!((*v)->Object_0@[i as int] => (*v)->Object_0@[i as int].1));
                    assert(decreases_to!(*v => fields@[i as int].1));
                }
                push_json(out, &field.1);
                assert(out@ =~= old(out)@ + seq!['{'] + json_members(fields@.subrange(0, i as int + 1)));
                i = i + 1;
            }
            assert(fields@.subrange(0, fields.len() as int) =~= fields@);
            push_char(out, '}');
            assert(out@ =~= old(out)@ + json_text(*v));
        },
    }
}

/// Compact JSON text of a value.
pub fn to_json_text(v: &Value) -> (r: String)
    ensures
        r@ == json_text(*v),
{
    let mut s = String::new();
    push_json(&mut s, v);
    assert(s@ =~= json_text(*v));
    s
}

/// Two spaces per level of indentation.
pub open spec fn indent_text(level: nat) -> Seq<char>
    decreases level,
{
    if level == 0 {
        Seq::<char>::empty()
    } else {
        indent_text((level - 1) as nat) + seq![' ', ' ']
    }
}

/// One level deeper (the depth stops growing at the largest `usize`).
pub open spec fn deeper(level: nat) -> nat {
    if level < usize::MAX { level + 1 } else { level }
}

/// Indented JSON text of a value at nesting `level`: each array element
/// and object member on its own line, members written `"key": value`,
/// empty arrays and objects as `[]` and `{}`.
pub open spec fn pretty_text(v: Value, level: nat) -> Seq<char>
    decreases v,
{
    match v {
        Value::Array(items) => if items@.len() == 0 {
            seq!['[', ']']
        } else {
            seq!['[', '\n'] + pretty_items(items@, deeper(level)) + seq!['\n'] + indent_text(level) + seq![']']
        },
        Value::Object(fields) => if fields@.len() == 0 {
            seq!['{', '}']
        } else {
            seq!['{', '\n'] + pretty_members(fields@, deeper(level)) + seq!['\n'] + indent_text(level) + seq!['}']
        },
        _ => json_text(v),
    }
}

/// Indented elements of an array, separated by `,` and a line break.
pub open spec fn pretty_items(items: Seq<Value>, level: nat) -> Seq<char>
    decreases items,
{
    if items.len() == 0 {
        Seq::<char>::empty()
    } else {
        let one = indent_text(level) + pretty_text(items.last(), level);
        if items.len() == 1 {
            one
        } else {
            pretty_items(items.drop_last(), level) + seq![',', '\n'] + one
        }
    }
}

/// Indented members of an object, separated by `,` and a line break.
pub open spec fn pretty_members(fields: Seq<(String, Value)>, level: nat) -> Seq<char>
    decreases fields,
{
    if fields.len() == 0 {
        Seq::<char>::empty()
    } else {
        let one = indent_text(level) + json_string(fields.last().0@) + seq![':', ' '] + pretty_text(
            fields.last().1,
            level,
        );
        if fields.len() == 1 {
            one
        } else {
            pretty_members(fields.drop_last(), level) + seq![',', '\n'] + one
        }
    }
}

fn push_indent(out: &mut String, level: usize)
    ensures
        final(out)@ == old(out)@ + indent_text(level as nat),
{
    let mut i: usize = 0;
    while i < level
        invariant
            i <= level,
            out@ == old(out)@ + indent_text(i as nat),
        decreases level - i,
    {
        push_char(out, ' ');
        push_char(out, ' ');
        assert(out@ =~= old(out)@ + indent_text((i + 1) as nat));
        i = i + 1;
    }
}

/// Appends the indented JSON text of `v` at nesting `level`.
pub fn push_pretty(out: &mut String, v: &Value, level: usize)
    ensures
        final(out)@ == old(out)@ + pretty_text(*v, level as nat),
    decreases v,
{
    let inner: usize = if level < usize::MAX { level + 1 } else { level };
    match v {
        Value::Array(items) => {
            if items.len() == 0 {
                push_char(out, '[');
                push_char(out, ']');
                assert(out@ =~= old(out)@ + pretty_text(*v, level as nat));
                return;
            }
            push_char(out, '[');
            push_char(out, '\n');
            let ghost head = out@;
            let mut i: usize = 0;
            while i < items.len()
                invariant
                    *v is Array,
                    (*v)->Array_0 == *items,
                    inner as nat == deeper(level as nat),
                    i <= items.len(),
                    out@ == head + pretty_items(items@.subrange(0, i as int), inner as nat),
                decreases items.len() - i,
            {
                assert(items@.subrange(0, i as int + 1).drop_last() =~= items@.subrange(0, i as int));
                if i > 0 {
                    push_char(out, ',');
                    push_char(out, '\n');
                }
                push_indent(out, inner);
                proof {
                    assert(decreases_to!(*v => (*v)->Array_0));
                    assert(decreases_to!((*v)->Array_0 => (*v)->Array_0@));
                    assert(decreases_to!((*v)->Array_0@ => (*v)->Array_0@[i as int]));
                }
                push_pretty(out, &items[i], inner);
                assert(out@ =~= head + pretty_items(items@.subrange(0, i as int + 1), inner as nat));
                i = i + 1;
            }
            assert(items@.subrange(0, items.len() as int) =~= items@);
            push_char(out, '\n');
            push_indent(out, level);
            push_char(out, ']');
            assert(out@ =~= old(out)@ + pretty_text(*v, level as nat));
        },
        Value::Object(fields) => {
            proof {
                assert(decreases_to!(*v => (*v)->Object_0));
            }
            push_pretty_object(out, fields, level);
        },
        _ => {
            push_json(out, v);
        },
    }
}

/// Appends the indented JSON text of an object with these members.
pub fn push_pretty_object(out: &mut String, fields: &Vec<(String, Value)>, level: usize)
    ensures
        final(out)@ == old(out)@ + pretty_text(Value::Object(*fields), level as nat),
    decreases fields,
{
    let inner: usize = if level < usize::MAX { level + 1 } else { level };
    if fields.len() == 0 {
        push_char(out, '{');
        push_char(out, '}');
        assert(out@ =~= old(out)@ + pretty_text(Value::Object(*fields), level as nat));
        return;
    }
    push_char(out, '{');
    push_char(out, '\n');
    let ghost head = out@;
    let mut i: usize = 0;
    while i < fields.len()
        invariant
            inner as nat == deeper(level as nat),
            i <= fields.len(),
            out@ == head + pretty_members(fields@.subrange(0, i as int), inner as nat),
        decreases fields.len() - i,
    {
        assert(fields@.subrange(0, i as int + 1).drop_last() =~= fields@.subrange(0, i as int));
        if i > 0 {
            push_char(out, ',');
            push_char(out, '\n');
        }
        push_indent(out, inner);
        let field = &fields[i];
        push_json_string(out, field.0.as_str());
        push_char(out, ':');
        push_char(out, ' ');
        proof {
            assert(decreases_to!(*fields => fields@));
            assert(decreases_to!(fields@ => fields@[i as int]));
            assert(decreases_to!(fields@[i as int] => fields@[i as int].1));
        }
        push_pretty(out, &field.1, inner);
        assert(out@ =~= head + pretty_members(fields@.subrange(0, i as int + 1), inner as nat));
        i = i + 1;
    }
    assert(fields@.subrange(0, fields.len() as int) =~= fields@);
    push_char(out, '\n');
    push_indent(out, level);
    push_char(out, '}');
    assert(out@ =~= old(out)@ + pretty_text(Value::Object(*fields), level as nat));
}

} // verus!
