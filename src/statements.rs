//! Engine-specific statement text: query tags for cancellation, ordered
//! table pages, and the columnar engine's HTTP endpoint and catalog
//! queries.

use vstd::prelude::*;
use vstd::string::*;
use crate::coerce::{ascii_lower, to_ascii_lower};
use crate::error::DbError;
use crate::models::{DataRequest, SortItem};
use crate::sql_builder::{is_valid_identifier, quoted, select_sql, sql_string, validate_identifier, QuoteStyle};
use crate::text::{int_text, nat_text, push_char, push_doubling, push_i64, push_str, push_u64, same_text};

verus! {

/// The comment that marks a statement with a query tag.
pub open spec fn tag_comment_text(tag: Seq<char>) -> Seq<char> {
    "/* query_id: "@ + tag + " */"@
}

/// The comment that marks a statement with `tag`.
pub fn tag_comment(tag: &str) -> (r: String)
    ensures
        r@ == tag_comment_text(tag@),
{
    let mut out = String::new();
    push_str(&mut out, "/* query_id: ");
    push_str(&mut out, tag);
    push_str(&mut out, " */");
    out
}

/// The statement as sent: prefixed by its tag comment when tagged.
pub fn tag_sql(sql: &str, tag: &Option<String>) -> (r: String)
    ensures
        tag is None ==> r@ == sql@,
        tag is Some ==> r@ == tag_comment_text(tag->0@) + " "@ + sql@,
{
    match tag {
        Some(t) => {
            let mut out = tag_comment(t.as_str());
            push_str(&mut out, " ");
            push_str(&mut out, sql);
            out
        },
        None => String::from_str(sql),
    }
}

/// The LIKE pattern that finds a tagged statement in a process list.
pub fn tag_pattern(tag: &str) -> (r: String)
    ensures
        r@ == seq!['%'] + tag_comment_text(tag@) + seq!['%'],
{
    let mut out = String::new();
    push_char(&mut out, '%');
    let c = tag_comment(tag);
    push_str(&mut out, c.as_str());
    push_char(&mut out, '%');
    out
}

/// `KILL QUERY <id>`.
pub fn kill_query_sql(id: u64) -> (r: String)
    ensures
        r@ == "KILL QUERY "@ + nat_text(id as nat),
{
    let mut out = String::new();
    push_str(&mut out, "KILL QUERY ");
    push_u64(&mut out, id);
    out
}

/// `ASC` or `DESC` for a direction given in any ASCII case.
pub open spec fn direction(s: Seq<char>) -> Option<Seq<char>> {
    if ascii_lower(s) == "asc"@ {
        Some("ASC"@)
    } else if ascii_lower(s) == "desc"@ {
        Some("DESC"@)
    } else {
        None
    }
}

/// Every ordering key names a valid column and a known direction.
pub open spec fn sorts_valid(sorts: Seq<SortItem>) -> bool {
    forall|i: int|
        0 <= i < sorts.len() ==> is_valid_identifier((#[trigger] sorts[i]).col_id@) && direction(
            sorts[i].sort@,
        ) is Some
}

/// `"col" DIR, ...`.
pub open spec fn order_keys(sorts: Seq<SortItem>, q: char) -> Seq<char>
    decreases sorts.len(),
{
    if sorts.len() == 0 {
        Seq::<char>::empty()
    } else {
        let key = quoted(sorts.last().col_id@, q) + seq![' '] + direction(sorts.last().sort@)->0;
        if sorts.len() == 1 {
            key
        } else {
            order_keys(sorts.drop_last(), q) + ", "@ + key
        }
    }
}

/// The ordering keys of a request; none when it has no sort.
pub open spec fn sort_keys(req: DataRequest) -> Seq<SortItem> {
    match req.sort {
        Some(v) => v@,
        None => Seq::<SortItem>::empty(),
    }
}

/// The text of a page of a table, ordered when the request says so.
pub open spec fn table_page_sql(req: DataRequest, q: char) -> Seq<char> {
    let keys = sort_keys(req);
    if keys.len() == 0 {
        select_sql(req.table_name@, req.limit as int, req.offset as int, q)
    } else {
        "SELECT * FROM "@ + quoted(req.table_name@, q) + " ORDER BY "@ + order_keys(keys, q) + " LIMIT "@
            + int_text(req.limit as int) + " OFFSET "@ + int_text(req.offset as int)
    }
}

fn push_quoted_with(out: &mut String, s: &str, q: char)
    ensures
        final(out)@ == old(out)@ + quoted(s@, q),
{
    push_char(out, q);
    push_doubling(out, s, q);
    push_char(out, q);
    assert(out@ =~= old(out)@ + quoted(s@, q));
}

fn sort_direction(s: &str) -> (r: Option<&'static str>)
    ensures
        r is Some <==> direction(s@) is Some,
        r is Some ==> r->0@ == direction(s@)->0,
{
    let l = to_ascii_lower(s);
    if same_text(l.as_str(), "asc") {
        Some("ASC")
    } else if same_text(l.as_str(), "desc") {
        Some("DESC")
    } else {
        None
    }
}

/// Builds a page of a table: `SELECT *`, ordered by the request's keys if
/// any, with its limit and offset. Table and column names are validated
/// and quoted; a direction other than `asc` or `desc` is refused.
pub fn build_table_page_sql(req: &DataRequest, quote_style: QuoteStyle) -> (r: Result<String, DbError>)
    ensures
        r is Ok <==> is_valid_identifier(req.table_name@) && sorts_valid(sort_keys(*req)),
        r is Ok ==> r->Ok_0@ == table_page_sql(*req, quote_style.mark()),
        !is_valid_identifier(req.table_name@) ==> r is Err && r->Err_0 is InvalidIdentifier,
{
    validate_identifier(req.table_name.as_str())?;
    let q = match quote_style {
        QuoteStyle::DoubleQuote => '"',
        QuoteStyle::Backtick => '`',
    };
    let mut out = String::new();
    push_str(&mut out, "SELECT * FROM ");
    push_quoted_with(&mut out, req.table_name.as_str(), q);
    match &req.sort {
        Some(sorts) => {
            if sorts.len() > 0 {
                push_str(&mut out, " ORDER BY ");
                let ghost head = out@;
                let mut i: usize = 0;
                while i < sorts.len()
                    invariant
                        i <= sorts.len(),
                        sort_keys(*req) == sorts@,
                        sorts_valid(sorts@.subrange(0, i as int)),
                        out@ == head + order_keys(sorts@.subrange(0, i as int), q),
                    decreases sorts.len() - i,
                {
                    let ghost prefix = sorts@.subrange(0, i as int + 1);
                    assert(prefix.drop_last() =~= sorts@.subrange(0, i as int));
                    let item = &sorts[i];
                    match validate_identifier(item.col_id.as_str()) {
                        Ok(()) => {},
                        Err(e) => {
                            assert(!sorts_valid(sorts@)) by {
                                assert(sorts@[i as int] == *item);
                            }
                            return Err(e);
                        },
                    }
                    let dir = match sort_direction(item.sort.as_str()) {
                        Some(d) => d,
                        None => {
                            assert(!sorts_valid(sorts@)) by {
                                assert(sorts@[i as int] == *item);
                            }
                            return Err(DbError::InvalidIdentifier(String::from_str("Invalid sort direction")));
                        },
                    };
                    if i > 0 {
                        push_str(&mut out, ", ");
                    }
                    push_quoted_with(&mut out, item.col_id.as_str(), q);
                    push_char(&mut out, ' ');
                    push_str(&mut out, dir);
                    assert(out@ =~= head + order_keys(prefix, q));
                    assert forall|j: int| 0 <= j < i + 1 implies is_valid_identifier((#[trigger] prefix[j]).col_id@)
                        && direction(prefix[j].sort@) is Some by {
                        if j < i {
                            assert(prefix[j] == sorts@.subrange(0, i as int)[j]);
                        }
                    }
                    i = i + 1;
                }
                assert(sorts@.subrange(0, sorts.len() as int) =~= sorts@);
            }
        },
        None => {},
    }
    push_str(&mut out, " LIMIT ");
    push_i64(&mut out, req.limit as i64);
    push_str(&mut out, " OFFSET ");
    push_i64(&mut out, req.offset as i64);
    assert(out@ =~= table_page_sql(*req, q));
    Ok(out)
}

/// The columnar engine's HTTP port when none is configured.
pub const DEFAULT_HTTP_PORT: u16 = 8123;

/// `http://host:port/`, with `localhost` written as `127.0.0.1` and port
/// zero meaning the default.
pub open spec fn endpoint_text(host: Seq<char>, port: u16) -> Seq<char> {
    let h = if host == "localhost"@ { "127.0.0.1"@ } else { host };
    let p = if port == 0 { DEFAULT_HTTP_PORT } else { port };
    "http://"@ + h + seq![':'] + nat_text(p as nat) + seq!['/']
}

/// The base address of the columnar engine's HTTP interface.
pub fn http_endpoint(host: &str, port: u16) -> (r: String)
    ensures
        r@ == endpoint_text(host@, port),
{
    let mut out = String::new();
    push_str(&mut out, "http://");
    if same_text(host, "localhost") {
        push_str(&mut out, "127.0.0.1");
    } else {
        push_str(&mut out, host);
    }
    push_char(&mut out, ':');
    push_u64(&mut out, if port == 0 { DEFAULT_HTTP_PORT as u64 } else { port as u64 });
    push_char(&mut out, '/');
    assert(out@ =~= endpoint_text(host@, port));
    out
}

/// The query parameters of every request: the database when one is set,
/// JSON output, and 64-bit integers and denormals quoted so that no
/// consumer loses precision.
pub fn http_params(database: &str) -> (r: Vec<(String, String)>)
    ensures
        r@.len() == if database@.len() > 0 { 4int } else { 3int },
        database@.len() > 0 ==> r@[0].0@ == "database"@ && r@[0].1@ == database@,
        r@[r@.len() - 3].0@ == "default_format"@ && r@[r@.len() - 3].1@ == "JSON"@,
        r@[r@.len() - 2].0@ == "output_format_json_quote_64bit_integers"@ && r@[r@.len() - 2].1@ == "1"@,
        r@[r@.len() - 1].0@ == "output_format_json_quote_denormals"@ && r@[r@.len() - 1].1@ == "1"@,
{
    let mut out: Vec<(String, String)> = Vec::new();
    if database.unicode_len() > 0 {
        out.push((String::from_str("database"), String::from_str(database)));
    }
    out.push((String::from_str("default_format"), String::from_str("JSON")));
    out.push((String::from_str("output_format_json_quote_64bit_integers"), String::from_str("1")));
    out.push((String::from_str("output_format_json_quote_denormals"), String::from_str("1")));
    out
}

/// `SHOW TABLES`, or `SHOW TABLES FROM "db"` for a named database.
pub fn show_tables_sql(db: &Option<String>) -> (r: String)
    ensures
        db is None ==> r@ == "SHOW TABLES"@,
        db is Some ==> r@ == "SHOW TABLES FROM "@ + quoted(db->0@, '"'),
{
    let mut out = String::new();
    match db {
        Some(d) => {
            push_str(&mut out, "SHOW TABLES FROM ");
            push_quoted_with(&mut out, d.as_str(), '"');
        },
        None => push_str(&mut out, "SHOW TABLES"),
    }
    out
}

/// The catalog query for the columns of every table of `db`.
pub fn columns_sql(db: &str) -> (r: String)
    ensures
        r@ == "SELECT table, name FROM system.columns WHERE database = "@ + sql_string(db@)
            + " ORDER BY table, position"@,
{
    let mut out = String::new();
    push_str(&mut out, "SELECT table, name FROM system.columns WHERE database = ");
    push_char(&mut out, '\'');
    push_doubling(&mut out, db, '\'');
    push_char(&mut out, '\'');
    push_str(&mut out, " ORDER BY table, position");
    assert(out@ =~= "SELECT table, name FROM system.columns WHERE database = "@ + sql_string(db@)
        + " ORDER BY table, position"@);
    out
}

/// The catalog query for the primary-key columns of `table` in `db`.
pub fn primary_key_sql(db: &str, table: &str) -> (r: String)
    ensures
        r@ == "SELECT name FROM system.columns WHERE database = "@ + sql_string(db@) + " AND table = "@
            + sql_string(table@) + " AND is_in_primary_key = 1"@,
{
    let mut out = String::new();
    push_str(&mut out, "SELECT name FROM system.columns WHERE database = ");
    push_char(&mut out, '\'');
    push_doubling(&mut out, db, '\'');
    push_char(&mut out, '\'');
    push_str(&mut out, " AND table = ");
    push_char(&mut out, '\'');
    push_doubling(&mut out, table, '\'');
    push_char(&mut out, '\'');
    push_str(&mut out, " AND is_in_primary_key = 1");
    assert(out@ =~= "SELECT name FROM system.columns WHERE database = "@ + sql_string(db@) + " AND table = "@
        + sql_string(table@) + " AND is_in_primary_key = 1"@);
    out
}

} // verus!
