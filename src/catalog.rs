//! Metadata shaping: schemas from catalog rows, database lists filtered by
//! a user's exclude list, and the catalog decisions of each engine.

use vstd::prelude::*;
use vstd::string::*;
use crate::models::DbSchema;
use crate::text::{push_char, same_text};

verus! {

/// The columns of `table` among catalog `(table, column)` rows, in row
/// order.
pub open spec fn columns_of(rows: Seq<(String, String)>, table: Seq<char>) -> Seq<Seq<char>>
    decreases rows.len(),
{
    if rows.len() == 0 {
        Seq::<Seq<char>>::empty()
    } else {
        let rest = columns_of(rows.drop_last(), table);
        if rows.last().0@ == table {
            rest.push(rows.last().1@)
        } else {
            rest
        }
    }
}

/// A table named by some catalog row.
pub open spec fn has_table(rows: Seq<(String, String)>, table: Seq<char>) -> bool {
    exists|i: int| 0 <= i < rows.len() && (#[trigger] rows[i]).0@ == table
}

/// `schema` lists every table of the rows once, each with its columns in
/// row order.
pub open spec fn is_schema_of(schema: Seq<(String, Vec<String>)>, rows: Seq<(String, String)>) -> bool {
    &&& forall|i: int, j: int| 0 <= i < j < schema.len() ==> (#[trigger] schema[i]).0@ != (#[trigger] schema[j]).0@
    &&& forall|i: int| 0 <= i < schema.len() ==> has_table(rows, (#[trigger] schema[i]).0@)
    &&& forall|i: int| 0 <= i < schema.len() ==> (#[trigger] schema[i]).1.deep_view() == columns_of(rows, schema[i].0@)
    &&& forall|t: Seq<char>| has_table(rows, t) ==> exists|i: int| 0 <= i < schema.len() && (#[trigger] schema[i]).0@ == t
}

fn table_index(schema: &DbSchema, table: &str) -> (r: Option<usize>)
    ensures
        r is Some ==> r->0 < schema@.len() && schema@[r->0 as int].0@ == table@,
        r is None ==> forall|i: int| 0 <= i < schema@.len() ==> (#[trigger] schema@[i]).0@ != table@,
{
    let mut i: usize = 0;
    while i < schema.len()
        invariant
            i <= schema.len(),
            forall|k: int| 0 <= k < i ==> (#[trigger] schema@[k]).0@ != table@,
        decreases schema.len() - i,
    {
        if same_text(schema[i].0.as_str(), table) {
            return Some(i);
        }
        i = i + 1;
    }
    None
}

/// Groups catalog `(table, column)` rows into a schema: each table once,
/// its columns in the order the rows give them.
pub fn group_schema(rows: &Vec<(String, String)>) -> (r: DbSchema)
    ensures
        is_schema_of(r@, rows@),
{
    let mut schema: DbSchema = Vec::new();
    let mut n: usize = 0;
    while n < rows.len()
        invariant
            n <= rows.len(),
            is_schema_of(schema@, rows@.subrange(0, n as int)),
        decreases rows.len() - n,
    {
        let ghost prev = rows@.subrange(0, n as int);
        let ghost next = rows@.subrange(0, n as int + 1);
        assert(next.drop_last() =~= prev);
        let ghost old_schema = schema@;
        let table = &rows[n].0;
        let column = &rows[n].1;
        assert forall|t: Seq<char>| has_table(prev, t) implies has_table(next, t) by {
            let i = choose|i: int| 0 <= i < prev.len() && (#[trigger] prev[i]).0@ == t;
            assert(next[i] == prev[i]);
        }
        assert(has_table(next, table@)) by {
            assert(next[n as int] == rows@[n as int]);
        }
        match table_index(&schema, table.as_str()) {
            Some(k) => {
                let mut entry = schema.remove(k);
                let ghost before = entry.1.deep_view();
                entry.1.push(column.clone());
                assert(entry.1.deep_view() =~= before.push(column@));
                schema.insert(k, entry);
                assert forall|i: int| 0 <= i < schema@.len() implies (#[trigger] schema@[i]).1.deep_view()
                    == columns_of(next, schema@[i].0@) by {
                    if i != k {
                        assert(schema@[i] == old_schema[i]);
                    }
                }
                assert forall|i: int| 0 <= i < schema@.len() implies has_table(next, (#[trigger] schema@[i]).0@) by {
                    if i != k {
                        assert(schema@[i] == old_schema[i]);
                    }
                }
                assert forall|t: Seq<char>| has_table(next, t) implies exists|i: int|
                    0 <= i < schema@.len() && (#[trigger] schema@[i]).0@ == t by {
                    if t != table@ {
                        let j = choose|j: int| 0 <= j < next.len() && (#[trigger] next[j]).0@ == t;
                        assert(next[n as int].0@ == table@);
                        assert(j != n);
                        assert(prev[j] == next[j]);
                        assert(has_table(prev, t));
                        let i = choose|i: int| 0 <= i < old_schema.len() && (#[trigger] old_schema[i]).0@ == t;
                        assert(schema@[i].0@ == old_schema[i].0@);
                    } else {
                        assert(schema@[k as int].0@ == t);
                    }
                }
                assert forall|i: int, j: int| 0 <= i < j < schema@.len() implies (#[trigger] schema@[i]).0@
                    != (#[trigger] schema@[j]).0@ by {
                    assert(schema@[i].0@ == old_schema[i].0@);
                    assert(schema@[j].0@ == old_schema[j].0@);
                }
            },
            None => {
                let mut cols: Vec<String> = Vec::new();
                cols.push(column.clone());
                proof {
                    assert(!has_table(prev, table@));
                    lemma_no_columns(prev, table@);
                    assert(cols.deep_view() =~= columns_of(next, table@));
                }
                schema.push((table.clone(), cols));
                assert forall|i: int| 0 <= i < schema@.len() implies (#[trigger] schema@[i]).1.deep_view()
                    == columns_of(next, schema@[i].0@) by {
                    if i < old_schema.len() {
                        assert(schema@[i] == old_schema[i]);
                    }
                }
                assert forall|i: int| 0 <= i < schema@.len() implies has_table(next, (#[trigger] schema@[i]).0@) by {
                    if i < old_schema.len() {
                        assert(schema@[i] == old_schema[i]);
                    }
                }
                assert forall|t: Seq<char>| has_table(next, t) implies exists|i: int|
                    0 <= i < schema@.len() && (#[trigger] schema@[i]).0@ == t by {
                    if t != table@ {
                        let j = choose|j: int| 0 <= j < next.len() && (#[trigger] next[j]).0@ == t;
                        assert(next[n as int].0@ == table@);
                        assert(j != n);
                        assert(prev[j] == next[j]);
                        assert(has_table(prev, t));
                        let i = choose|i: int| 0 <= i < old_schema.len() && (#[trigger] old_schema[i]).0@ == t;
                        assert(schema@[i] == old_schema[i]);
                    } else {
                        assert(schema@[old_schema.len() as int].0@ == t);
                    }
                }
            },
        }
        n = n + 1;
    }
    assert(rows@.subrange(0, rows.len() as int) =~= rows@);
    schema
}

proof fn lemma_no_columns(rows: Seq<(String, String)>, table: Seq<char>)
    requires
        !has_table(rows, table),
    ensures
        columns_of(rows, table).len() == 0,
    decreases rows.len(),
{
    if rows.len() > 0 {
        assert(!has_table(rows.drop_last(), table)) by {
            if has_table(rows.drop_last(), table) {
                let i = choose|i: int| 0 <= i < rows.drop_last().len() && (#[trigger] rows.drop_last()[i]).0@ == table;
                assert(rows[i] == rows.drop_last()[i]);
            }
        }
        assert(rows[rows.len() - 1] == rows.last());
        lemma_no_columns(rows.drop_last(), table);
    }
}

/// The pieces of `s` between occurrences of `sep`; always at least one.
pub open spec fn pieces(s: Seq<char>, sep: char) -> Seq<Seq<char>>
    decreases s.len(),
{
    if s.len() == 0 {
        seq![Seq::<char>::empty()]
    } else {
        let p = pieces(s.drop_last(), sep);
        if s.last() == sep {
            p.push(Seq::<char>::empty())
        } else {
            p.update(p.len() - 1, p.last().push(s.last()))
        }
    }
}

proof fn lemma_pieces_nonempty(s: Seq<char>, sep: char)
    ensures
        pieces(s, sep).len() >= 1,
    decreases s.len(),
{
    if s.len() > 0 {
        lemma_pieces_nonempty(s.drop_last(), sep);
    }
}

/// Splits `s` at every `sep`.
pub fn split_on(s: &str, sep: char) -> (r: Vec<String>)
    ensures
        r.deep_view() == pieces(s@, sep),
{
    let mut out: Vec<String> = Vec::new();
    out.push(String::new());
    let n = s.unicode_len();
    let mut i: usize = 0;
    assert(out.deep_view() =~= pieces(s@.subrange(0, 0), sep));
    while i < n
        invariant
            n == s@.len(),
            i <= n,
            out.deep_view() == pieces(s@.subrange(0, i as int), sep),
            out@.len() >= 1,
        decreases n - i,
    {
        let c = s.get_char(i);
        let ghost prev = s@.subrange(0, i as int);
        assert(s@.subrange(0, i as int + 1).drop_last() =~= prev);
        proof { lemma_pieces_nonempty(prev, sep); }
        if c == sep {
            out.push(String::new());
            assert(out.deep_view() =~= pieces(s@.subrange(0, i as int + 1), sep));
        } else {
            let last = out.len() - 1;
            let mut piece = out.remove(last);
            push_char(&mut piece, c);
            out.push(piece);
            assert(out.deep_view() =~= pieces(s@.subrange(0, i as int + 1), sep));
        }
        i = i + 1;
    }
    assert(s@.subrange(0, n as int) =~= s@);
    out
}

/// A character with the Unicode `White_Space` property.
pub open spec fn is_white_space(c: char) -> bool {
    let u = c as u32;
    (9 <= u <= 13) || u == 32 || u == 0x85 || u == 0xA0 || u == 0x1680 || (0x2000 <= u <= 0x200A) || u
        == 0x2028 || u == 0x2029 || u == 0x202F || u == 0x205F || u == 0x3000
}

/// `s` without its leading white space.
pub open spec fn trim_start(s: Seq<char>) -> Seq<char>
    decreases s.len(),
{
    if s.len() > 0 && is_white_space(s[0]) {
        trim_start(s.drop_first())
    } else {
        s
    }
}

/// `s` without its trailing white space.
pub open spec fn trim_end(s: Seq<char>) -> Seq<char>
    decreases s.len(),
{
    if s.len() > 0 && is_white_space(s.last()) {
        trim_end(s.drop_last())
    } else {
        s
    }
}

/// `s` without leading and trailing white space.
pub open spec fn trimmed(s: Seq<char>) -> Seq<char> {
    trim_end(trim_start(s))
}

/// A name for the text that `str::to_lowercase` gives.
pub uninterp spec fn lowered(s: Seq<char>) -> Seq<char>;

fn white_space(c: char) -> (r: bool)
    ensures
        r == is_white_space(c),
{
    let u = c as u32;
    (9 <= u && u <= 13) || u == 32 || u == 0x85 || u == 0xA0 || u == 0x1680 || (0x2000 <= u && u <= 0x200A)
        || u == 0x2028 || u == 0x2029 || u == 0x202F || u == 0x205F || u == 0x3000
}

/// `s` without leading and trailing white space.
pub fn trim_text(s: &str) -> (r: String)
    ensures
        r@ == trimmed(s@),
{
    let n = s.unicode_len();
    let mut a: usize = 0;
    assert(s@.subrange(0, n as int) =~= s@);
    while a < n && white_space(s.get_char(a))
        invariant
            n == s@.len(),
            a <= n,
            trim_start(s@) == trim_start(s@.subrange(a as int, n as int)),
        decreases n - a,
    {
        assert(s@.subrange(a as int, n as int).drop_first() =~= s@.subrange(a as int + 1, n as int));
        a = a + 1;
    }
    let ghost front = s@.subrange(a as int, n as int);
    assert(trim_start(s@) == front);
    let mut b: usize = n;
    assert(front.subrange(0, (b - a) as int) =~= front);
    while b > a && white_space(s.get_char(b - 1))
        invariant
            n == s@.len(),
            a <= b <= n,
            front == s@.subrange(a as int, n as int),
            trim_end(front) == trim_end(s@.subrange(a as int, b as int)),
        decreases b - a,
    {
        assert(s@.subrange(a as int, b as int).drop_last() =~= s@.subrange(a as int, b as int - 1));
        b = b - 1;
    }
    let part = s.substring_char(a, b);
    String::from_str(part)
}

/// Relies on `str::to_lowercase`: the result depends on the text alone.
#[verifier::external_body]
fn lowercase_text(s: &str) -> (r: String)
    ensures
        r@ == lowered(s@),
{
    s.to_lowercase()
}

/// The names an exclude list holds: its comma-separated entries, trimmed
/// and lower-cased.
pub open spec fn excluded_names(list: Seq<char>) -> Seq<Seq<char>> {
    pieces(list, ',').map_values(|p: Seq<char>| lowered(trimmed(p)))
}

/// The databases whose lower-cased name is not among `names`, in order.
pub open spec fn kept_databases(dbs: Seq<Seq<char>>, names: Seq<Seq<char>>) -> Seq<Seq<char>>
    decreases dbs.len(),
{
    if dbs.len() == 0 {
        dbs
    } else {
        let rest = kept_databases(dbs.drop_last(), names);
        if names.contains(lowered(dbs.last())) {
            rest
        } else {
            rest.push(dbs.last())
        }
    }
}

fn contains_text(items: &Vec<String>, s: &str) -> (r: bool)
    ensures
        r == items.deep_view().contains(s@),
{
    let mut i: usize = 0;
    while i < items.len()
        invariant
            i <= items.len(),
            forall|k: int| 0 <= k < i ==> items.deep_view()[k] != s@,
        decreases items.len() - i,
    {
        if same_text(items[i].as_str(), s) {
            assert(items.deep_view()[i as int] == s@);
            return true;
        }
        i = i + 1;
    }
    false
}

/// Drops the databases named by an exclude list, compared without regard
/// to case. No list, or one that is blank, keeps every database.
pub fn apply_exclude_list(dbs: Vec<String>, exclude_list: Option<String>) -> (r: Vec<String>)
    ensures
        exclude_list is None ==> r.deep_view() == dbs.deep_view(),
        exclude_list is Some && trimmed(exclude_list->0@).len() == 0 ==> r.deep_view() == dbs.deep_view(),
        exclude_list is Some && trimmed(exclude_list->0@).len() > 0 ==> r.deep_view() == kept_databases(
            dbs.deep_view(),
            excluded_names(exclude_list->0@),
        ),
{
    let list = match exclude_list {
        Some(l) => l,
        None => return dbs,
    };
    let whole = trim_text(list.as_str());
    if whole.as_str().unicode_len() == 0 {
        return dbs;
    }
    let parts = split_on(list.as_str(), ',');
    let mut names: Vec<String> = Vec::new();
    let mut j: usize = 0;
    while j < parts.len()
        invariant
            j <= parts.len(),
            parts.deep_view() == pieces(list@, ','),
            names.deep_view() =~= excluded_names(list@).subrange(0, j as int),
        decreases parts.len() - j,
    {
        let t = trim_text(parts[j].as_str());
        let l = lowercase_text(t.as_str());
        assert(parts.deep_view()[j as int] == parts@[j as int]@);
        let ghost before = names.deep_view();
        names.push(l);
        assert(names.deep_view() =~= before.push(l@));
        j = j + 1;
    }
    assert(names.deep_view() =~= excluded_names(list@));
    let mut out: Vec<String> = Vec::new();
    let mut i: usize = 0;
    while i < dbs.len()
        invariant
            i <= dbs.len(),
            names.deep_view() == excluded_names(list@),
            out.deep_view() == kept_databases(dbs.deep_view().subrange(0, i as int), names.deep_view()),
        decreases dbs.len() - i,
    {
        assert(dbs.deep_view().subrange(0, i as int + 1).drop_last() =~= dbs.deep_view().subrange(0, i as int));
        let l = lowercase_text(dbs[i].as_str());
        if !contains_text(&names, l.as_str()) {
            out.push(dbs[i].clone());
        }
        assert(out.deep_view() =~= kept_databases(dbs.deep_view().subrange(0, i as int + 1), names.deep_view()));
        i = i + 1;
    }
    assert(dbs.deep_view().subrange(0, dbs.len() as int) =~= dbs.deep_view());
    out
}

/// Whether listing a catalog other than the current one needs the session
/// switched first.
pub fn needs_switch(requested: &Option<String>, current: &str) -> (r: bool)
    ensures
        r == (requested is Some && requested->0@ != current@),
{
    match requested {
        Some(db) => !same_text(db.as_str(), current),
        None => false,
    }
}

/// The schema and table a row-store engine B table reference names: the
/// first two dot-separated parts of a qualified name, or the `public`
/// schema for an unqualified one.
pub open spec fn table_ref(name: Seq<char>) -> (Seq<char>, Seq<char>) {
    if pieces(name, '.').len() >= 2 {
        (pieces(name, '.')[0], pieces(name, '.')[1])
    } else {
        ("public"@, name)
    }
}

/// Splits a table reference into schema and table.
pub fn split_table_ref(name: &str) -> (r: (String, String))
    ensures
        (r.0@, r.1@) == table_ref(name@),
{
    let parts = split_on(name, '.');
    if parts.len() >= 2 {
        assert(parts.deep_view()[0] == parts@[0]@);
        assert(parts.deep_view()[1] == parts@[1]@);
        (parts[0].clone(), parts[1].clone())
    } else {
        proof {
            lemma_pieces_nonempty(name@, '.');
        }
        assert(pieces(name@, '.').len() == 1);
        assert(pieces(name@, '.')[0] =~= name@) by {
            lemma_single_piece(name@, '.');
        }
        (String::from_str("public"), String::from_str(name))
    }
}

proof fn lemma_single_piece(s: Seq<char>, sep: char)
    requires
        pieces(s, sep).len() == 1,
    ensures
        pieces(s, sep)[0] == s,
    decreases s.len(),
{
    if s.len() > 0 {
        lemma_pieces_nonempty(s.drop_last(), sep);
        lemma_single_piece(s.drop_last(), sep);
        assert(pieces(s, sep)[0] =~= s);
    }
}

} // verus!
