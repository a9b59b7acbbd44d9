//! Turning a query result into a CSV document or an INSERT script.

use vstd::prelude::*;
use vstd::string::*;
use crate::models::{QueryResult, Row};
use crate::sql_builder::{law_quote_round_trip, quoted, sql_string, undoubled, QuoteStyle};
use crate::text::{doubled, push_char, push_doubling, push_str};
use crate::value::{is_number_text, number_text_ok, indent_text, json_text, pretty_text, push_pretty_object, to_json_text, Value};

verus! {

/// The value of column `col` in a row: its first entry of that name.
pub open spec fn row_lookup(row: Seq<(String, Value)>, col: Seq<char>) -> Option<Value>
    decreases row.len(),
{
    if row.len() == 0 {
        None
    } else if row[0].0@ == col {
        Some(row[0].1)
    } else {
        row_lookup(row.drop_first(), col)
    }
}

/// Finds the value of column `col` in a row.
pub fn row_value<'a>(row: &'a Row, col: &str) -> (r: Option<&'a Value>)
    ensures
        r is Some <==> row_lookup(row@, col@) is Some,
        r is Some ==> row_lookup(row@, col@) == Some(*r->0),
{
    let mut i: usize = 0;
    assert(row@.subrange(0, row@.len() as int) =~= row@);
    while i < row.len()
        invariant
            i <= row.len(),
            row_lookup(row@, col@) == row_lookup(row@.subrange(i as int, row@.len() as int), col@),
        decreases row.len() - i,
    {
        assert(row@.subrange(i as int, row@.len() as int).drop_first() =~= row@.subrange(i as int + 1, row@.len() as int));
        if crate::text::same_text(row[i].0.as_str(), col) {
            return Some(&row[i].1);
        }
        i = i + 1;
    }
    None
}

/// A character that forces a CSV field into quotes: the delimiter, the
/// quote, or a line break.
pub open spec fn csv_special(c: char) -> bool {
    c == ',' || c == '"' || c == '\r' || c == '\n'
}

/// Whether a CSV field must be quoted.
pub open spec fn csv_needs_quotes(f: Seq<char>) -> bool {
    exists|i: int| 0 <= i < f.len() && csv_special(#[trigger] f[i])
}

/// How one field is written: quoted with its quotes doubled when it holds
/// a special character, as it is otherwise.
pub open spec fn csv_field_text(f: Seq<char>) -> Seq<char> {
    if csv_needs_quotes(f) {
        quoted(f, '"')
    } else {
        f
    }
}

/// The fields of a record, each written as a field, joined by commas.
pub open spec fn csv_joined(fields: Seq<Seq<char>>) -> Seq<char>
    decreases fields.len(),
{
    if fields.len() == 0 {
        Seq::<char>::empty()
    } else if fields.len() == 1 {
        csv_field_text(fields[0])
    } else {
        csv_joined(fields.drop_last()) + seq![','] + csv_field_text(fields.last())
    }
}

/// One CSV record with the default settings: the joined fields and a line
/// feed; a record that would be empty is written as `""` so that it stays
/// a record.
pub open spec fn csv_record_text(fields: Seq<Seq<char>>) -> Seq<char> {
    let body = csv_joined(fields);
    if body.len() == 0 {
        seq!['"', '"', '\n']
    } else {
        body.push('\n')
    }
}

/// A CSV field holding a comma, a quote or a line break is written in
/// quotes with its quotes doubled, and its inside reads back as the field;
/// any other field is written as it is.
pub proof fn law_csv_field_quoting(f: Seq<char>)
    ensures
        csv_needs_quotes(f) ==> {
            let t = csv_field_text(f);
            &&& t.len() >= 2
            &&& t[0] == '"'
            &&& t.last() == '"'
            &&& undoubled(t.subrange(1, t.len() - 1), '"') == f
        },
        !csv_needs_quotes(f) ==> csv_field_text(f) == f,
{
    law_quote_round_trip(f, QuoteStyle::DoubleQuote);
}

/// Relies on `csv::Writer` with its default settings (comma delimiter,
/// `"` quote doubled inside, line-feed terminator, quoting only where
/// necessary), writing one record into memory. csv-core quotes a field
/// exactly when it holds `,`, `"`, `\r` or `\n`, and writes `""` for a
/// record with no bytes. Writing into a `Vec` cannot fail, a single record
/// cannot have unequal length, and only ASCII bytes are added to UTF-8
/// fields, so the result is always there.
#[verifier::external_body]
fn csv_record(fields: &Vec<String>) -> (r: Option<String>)
    ensures
        r is Some,
        r->0@ == csv_record_text(fields.deep_view()),
{
    let mut writer = csv::Writer::from_writer(Vec::new());
    writer.write_record(fields).ok()?;
    let bytes = writer.into_inner().ok()?;
    String::from_utf8(bytes).ok()
}

/// The CSV cell of a value: strings raw, null or absent empty, anything
/// else as its JSON text.
pub open spec fn csv_cell_text(v: Option<Value>) -> Seq<char> {
    match v {
        None => Seq::<char>::empty(),
        Some(Value::Null) => Seq::<char>::empty(),
        Some(Value::Str(s)) => s@,
        Some(other) => json_text(other),
    }
}

/// The cells of a row, one per result column.
pub open spec fn csv_fields(row: Seq<(String, Value)>, columns: Seq<String>) -> Seq<Seq<char>> {
    Seq::new(columns.len(), |i: int| csv_cell_text(row_lookup(row, columns[i]@)))
}

/// The records of the rows, one after the other.
pub open spec fn csv_rows_text(rows: Seq<Row>, columns: Seq<String>) -> Seq<char>
    decreases rows.len(),
{
    if rows.len() == 0 {
        Seq::<char>::empty()
    } else {
        csv_rows_text(rows.drop_last(), columns) + csv_record_text(csv_fields(rows.last()@, columns))
    }
}

/// A CSV document: a header of the column names, then one record per row.
pub open spec fn csv_document(columns: Seq<String>, rows: Seq<Row>) -> Seq<char> {
    csv_record_text(columns.map_values(|c: String| c@)) + csv_rows_text(rows, columns)
}

fn csv_cell(v: Option<&Value>) -> (r: String)
    ensures
        r@ == csv_cell_text(match v { Some(x) => Some(*x), None => None }),
{
    match v {
        None => String::new(),
        Some(Value::Null) => String::new(),
        Some(Value::Str(s)) => s.clone(),
        Some(other) => to_json_text(other),
    }
}

/// Writes a result as CSV: a header of the column names, then one record
/// per row with a cell per column.
pub fn export_csv(result: &QueryResult) -> (r: String)
    ensures
        r@ == csv_document(result.columns@, result.rows@),
{
    let header = csv_record(&result.columns).unwrap();
    assert(result.columns.deep_view() =~= result.columns@.map_values(|c: String| c@));
    let mut out = header;
    let ghost head = out@;
    let mut i: usize = 0;
    while i < result.rows.len()
        invariant
            i <= result.rows.len(),
            head == csv_record_text(result.columns@.map_values(|c: String| c@)),
            out@ == head + csv_rows_text(result.rows@.subrange(0, i as int), result.columns@),
        decreases result.rows.len() - i,
    {
        assert(result.rows@.subrange(0, i as int + 1).drop_last() =~= result.rows@.subrange(0, i as int));
        let row = &result.rows[i];
        let mut fields: Vec<String> = Vec::new();
        let mut j: usize = 0;
        while j < result.columns.len()
            invariant
                j <= result.columns.len(),
                fields.deep_view() =~= csv_fields(row@, result.columns@).subrange(0, j as int),
            decreases result.columns.len() - j,
        {
            let found = row_value(row, result.columns[j].as_str());
            let cell = csv_cell(found);
            assert(cell@ == csv_fields(row@, result.columns@)[j as int]);
            let ghost before = fields.deep_view();
            fields.push(cell);
            assert(fields.deep_view() =~= before.push(cell@));
            j = j + 1;
        }
        assert(fields.deep_view() =~= csv_fields(row@, result.columns@));
        let record = csv_record(&fields).unwrap();
        push_str(&mut out, record.as_str());
        assert(out@ =~= head + csv_rows_text(result.rows@.subrange(0, i as int + 1), result.columns@));
        i = i + 1;
    }
    assert(result.rows@.subrange(0, result.rows.len() as int) =~= result.rows@);
    out
}

/// The SQL literal of a cell in an INSERT script: strings quoted with
/// quotes doubled, null or absent as `NULL`, numbers bare (quoted when
/// their text is not number text), booleans as `TRUE`/`FALSE`, anything
/// else as its quoted JSON text.
pub open spec fn insert_literal(v: Option<Value>) -> Seq<char> {
    match v {
        None => "NULL"@,
        Some(Value::Null) => "NULL"@,
        Some(Value::Str(s)) => sql_string(s@),
        Some(Value::Number(n)) => if is_number_text(n@) { n@ } else { sql_string(n@) },
        Some(Value::Bool(b)) => if b { "TRUE"@ } else { "FALSE"@ },
        Some(other) => sql_string(json_text(other)),
    }
}

/// In an INSERT script a string cell is a single-quoted literal whose
/// inside reads back as the string (embedded quotes doubled); a null or
/// absent cell is `NULL`, a number with number text is bare, a boolean is
/// `TRUE` or `FALSE`.
pub proof fn law_insert_literals(v: Option<Value>)
    ensures
        v is None || v == Some(Value::Null) ==> insert_literal(v) == "NULL"@,
        v is Some && v->0 is Str ==> {
            let e = insert_literal(v);
            &&& e.len() >= 2
            &&& e[0] == '\''
            &&& e.last() == '\''
            &&& undoubled(e.subrange(1, e.len() - 1), '\'') == v->0->Str_0@
        },
        v is Some && v->0 is Number && is_number_text(v->0->Number_0@) ==> insert_literal(v)
            == v->0->Number_0@,
        v is Some && v->0 is Bool ==> insert_literal(v) == if v->0->Bool_0 { "TRUE"@ } else { "FALSE"@ },
{
    if v is Some && v->0 is Str {
        let s = v->0->Str_0@;
        let e = insert_literal(v);
        crate::sql_builder::lemma_doubled_round_trip(s, '\'');
        assert(e.subrange(1, e.len() - 1) =~= crate::text::doubled(s, '\''));
    }
}

/// `items` joined with `, `.
pub open spec fn comma_list(items: Seq<Seq<char>>) -> Seq<char>
    decreases items.len(),
{
    if items.len() == 0 {
        Seq::<char>::empty()
    } else if items.len() == 1 {
        items[0]
    } else {
        comma_list(items.drop_last()) + ", "@ + items.last()
    }
}

/// The table name an INSERT script writes into.
pub open spec fn export_table_name() -> Seq<char> {
    "export_table"@
}

/// One INSERT statement for a row.
pub open spec fn insert_statement(row: Seq<(String, Value)>, columns: Seq<String>) -> Seq<char> {
    "INSERT INTO "@ + export_table_name() + " ("@
        + comma_list(Seq::new(columns.len(), |i: int| quoted(columns[i]@, '"')))
        + ") VALUES ("@
        + comma_list(Seq::new(columns.len(), |i: int| insert_literal(row_lookup(row, columns[i]@))))
        + ");\n"@
}

/// The INSERT statements of the rows, one per line.
pub open spec fn insert_script(rows: Seq<Row>, columns: Seq<String>) -> Seq<char>
    decreases rows.len(),
{
    if rows.len() == 0 {
        Seq::<char>::empty()
    } else {
        insert_script(rows.drop_last(), columns) + insert_statement(rows.last()@, columns)
    }
}

fn push_insert_literal(out: &mut String, v: Option<&Value>)
    ensures
        final(out)@ == old(out)@ + insert_literal(match v { Some(x) => Some(*x), None => None }),
{
    match v {
        None => push_str(out, "NULL"),
        Some(Value::Null) => push_str(out, "NULL"),
        Some(Value::Str(s)) => {
            push_char(out, '\'');
            push_doubling(out, s.as_str(), '\'');
            push_char(out, '\'');
            assert(out@ =~= old(out)@ + sql_string(s@));
        },
        Some(Value::Number(n)) => {
            if number_text_ok(n.as_str()) {
                push_str(out, n.as_str());
            } else {
                push_char(out, '\'');
                push_doubling(out, n.as_str(), '\'');
                push_char(out, '\'');
                assert(out@ =~= old(out)@ + sql_string(n@));
            }
        },
        Some(Value::Bool(b)) => {
            if *b {
                push_str(out, "TRUE");
            } else {
                push_str(out, "FALSE");
            }
        },
        Some(other) => {
            let text = to_json_text(other);
            push_char(out, '\'');
            push_doubling(out, text.as_str(), '\'');
            push_char(out, '\'');
            assert(out@ =~= old(out)@ + sql_string(json_text(*other)));
        },
    }
}

/// Writes a result as a script of INSERT statements, one per row.
pub fn export_sql(result: &QueryResult) -> (r: String)
    ensures
        r@ == insert_script(result.rows@, result.columns@),
{
    let columns = &result.columns;
    let ghost names = Seq::new(columns@.len(), |i: int| quoted(columns@[i]@, '"'));
    let mut out = String::new();
    let mut i: usize = 0;
    while i < result.rows.len()
        invariant
            i <= result.rows.len(),
            columns == &result.columns,
            names == Seq::new(columns@.len(), |i: int| quoted(columns@[i]@, '"')),
            out@ == insert_script(result.rows@.subrange(0, i as int), columns@),
        decreases result.rows.len() - i,
    {
        assert(result.rows@.subrange(0, i as int + 1).drop_last() =~= result.rows@.subrange(0, i as int));
        let row = &result.rows[i];
        let ghost start = out@;
        let ghost lits = Seq::new(columns@.len(), |k: int| insert_literal(row_lookup(row@, columns@[k]@)));
        push_str(&mut out, "INSERT INTO ");
        push_str(&mut out, "export_table");
        push_str(&mut out, " (");
        let ghost a = out@;
        let mut j: usize = 0;
        while j < columns.len()
            invariant
                j <= columns.len(),
                names == Seq::new(columns@.len(), |i: int| quoted(columns@[i]@, '"')),
                out@ == a + comma_list(names.subrange(0, j as int)),
            decreases columns.len() - j,
        {
            assert(names.subrange(0, j as int + 1).drop_last() =~= names.subrange(0, j as int));
            if j > 0 {
                push_str(&mut out, ", ");
            }
            push_char(&mut out, '"');
            push_doubling(&mut out, columns[j].as_str(), '"');
            push_char(&mut out, '"');
            assert(out@ =~= a + comma_list(names.subrange(0, j as int + 1)));
            j = j + 1;
        }
        assert(names.subrange(0, columns.len() as int) =~= names);
        push_str(&mut out, ") VALUES (");
        let ghost b = out@;
        let mut k: usize = 0;
        while k < columns.len()
            invariant
                k <= columns.len(),
                lits == Seq::new(columns@.len(), |k: int| insert_literal(row_lookup(row@, columns@[k]@))),
                out@ == b + comma_list(lits.subrange(0, k as int)),
            decreases columns.len() - k,
        {
            assert(lits.subrange(0, k as int + 1).drop_last() =~= lits.subrange(0, k as int));
            if k > 0 {
                push_str(&mut out, ", ");
            }
            push_insert_literal(&mut out, row_value(row, columns[k].as_str()));
            assert(out@ =~= b + comma_list(lits.subrange(0, k as int + 1)));
            k = k + 1;
        }
        assert(lits.subrange(0, columns.len() as int) =~= lits);
        push_str(&mut out, ");\n");
        assert(out@ =~= start + insert_statement(row@, columns@));
        assert(out@ =~= insert_script(result.rows@.subrange(0, i as int + 1), columns@));
        i = i + 1;
    }
    assert(result.rows@.subrange(0, result.rows.len() as int) =~= result.rows@);
    out
}

/// The rows as indented JSON objects, separated by `,` and a line break.
pub open spec fn json_rows_items(rows: Seq<Row>) -> Seq<char>
    decreases rows.len(),
{
    if rows.len() == 0 {
        Seq::<char>::empty()
    } else {
        let one = indent_text(1) + pretty_text(Value::Object(rows.last()), 1);
        if rows.len() == 1 {
            one
        } else {
            json_rows_items(rows.drop_last()) + seq![',', '\n'] + one
        }
    }
}

/// The rows as an indented JSON array of objects.
pub open spec fn json_rows(rows: Seq<Row>) -> Seq<char> {
    if rows.len() == 0 {
        seq!['[', ']']
    } else {
        seq!['[', '\n'] + json_rows_items(rows) + seq!['\n', ']']
    }
}

/// Writes the rows of a result as an indented JSON array of objects.
pub fn export_json(result: &QueryResult) -> (r: String)
    ensures
        r@ == json_rows(result.rows@),
{
    let rows = &result.rows;
    let mut out = String::new();
    if rows.len() == 0 {
        push_char(&mut out, '[');
        push_char(&mut out, ']');
        assert(out@ =~= json_rows(rows@));
        return out;
    }
    push_char(&mut out, '[');
    push_char(&mut out, '\n');
    let ghost head = out@;
    let mut i: usize = 0;
    while i < rows.len()
        invariant
            i <= rows.len(),
            out@ == head + json_rows_items(rows@.subrange(0, i as int)),
        decreases rows.len() - i,
    {
        assert(rows@.subrange(0, i as int + 1).drop_last() =~= rows@.subrange(0, i as int));
        if i > 0 {
            push_char(&mut out, ',');
            push_char(&mut out, '\n');
        }
        push_char(&mut out, ' ');
        push_char(&mut out, ' ');
        assert(indent_text(1) =~= seq![' ', ' ']) by {
            reveal_with_fuel(indent_text, 2);
        }
        push_pretty_object(&mut out, &rows[i], 1);
        assert(out@ =~= head + json_rows_items(rows@.subrange(0, i as int + 1)));
        i = i + 1;
    }
    assert(rows@.subrange(0, rows.len() as int) =~= rows@);
    push_char(&mut out, '\n');
    push_char(&mut out, ']');
    assert(out@ =~= json_rows(rows@));
    out
}

/// The formats a result can be exported in.
#[derive(Debug, Clone, Copy, PartialEq, Eq, Structural)]
pub enum ExportFormat {
    Csv,
    Json,
    Sql,
}

/// Decides whether a result can be exported, and how: a result carrying
/// an error is not exported (its error is returned), and only `csv`,
/// `json` and `sql` are known formats.
pub fn export_format(result: &QueryResult, format: &str) -> (r: Result<ExportFormat, String>)
    ensures
        result.error is Some ==> r is Err && r->Err_0 == result.error->0,
        result.error is None ==> (r is Ok <==> (format@ == "csv"@ || format@ == "json"@ || format@ == "sql"@)),
        result.error is None && format@ == "csv"@ ==> r == Ok::<ExportFormat, String>(ExportFormat::Csv),
        result.error is None && format@ == "json"@ ==> r == Ok::<ExportFormat, String>(ExportFormat::Json),
        result.error is None && format@ == "sql"@ ==> r == Ok::<ExportFormat, String>(ExportFormat::Sql),
        result.error is None && r is Err ==> r->Err_0@ == "Unsupported format"@,
{
    proof {
        reveal_strlit("csv");
        reveal_strlit("json");
        reveal_strlit("sql");
        assert("csv"@.len() != "json"@.len());
        assert("sql"@.len() != "json"@.len());
        assert("csv"@[0] != "sql"@[0]);
    }
    match &result.error {
        Some(e) => return Err(e.clone()),
        None => {},
    }
    if crate::text::same_text(format, "csv") {
        Ok(ExportFormat::Csv)
    } else if crate::text::same_text(format, "json") {
        Ok(ExportFormat::Json)
    } else if crate::text::same_text(format, "sql") {
        Ok(ExportFormat::Sql)
    } else {
        Err(String::from_str("Unsupported format"))
    }
}

} // verus!
