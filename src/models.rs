//! The data model shared by the manager, the drivers and their callers.

use vstd::prelude::*;
use vstd::string::*;
use crate::text::same_text;
use crate::value::Value;

verus! {

/// The engine a connection talks to.
#[derive(Debug, Clone, Copy, PartialEq, Eq, Structural)]
pub enum DatabaseDriver {
    Mysql,
    Postgres,
    Clickhouse,
}

impl Default for DatabaseDriver {
    fn default() -> (r: DatabaseDriver)
        ensures
            r == DatabaseDriver::Postgres,
    {
        DatabaseDriver::Postgres
    }
}

/// Everything needed to open one connection, optionally through an SSH
/// tunnel.
#[derive(Debug, Clone)]
pub struct ConnectionConfig {
    pub id: String,
    pub driver: DatabaseDriver,
    pub name: String,
    pub host: String,
    pub port: u16,
    pub user: String,
    pub password: Option<String>,
    pub database: String,
    pub exclude_list: Option<String>,
    pub use_ssh: Option<bool>,
    pub ssh_host: Option<String>,
    pub ssh_port: Option<u16>,
    pub ssh_user: Option<String>,
    pub ssh_password: Option<String>,
    pub ssh_key_path: Option<String>,
}

/// A connection as listed to a user: the configuration without secrets.
#[derive(Debug, Clone)]
pub struct ConnectionSummary {
    pub id: String,
    pub driver: DatabaseDriver,
    pub name: String,
    pub host: String,
    pub port: u16,
    pub user: String,
    pub database: String,
    pub exclude_list: Option<String>,
    pub use_ssh: Option<bool>,
    pub ssh_host: Option<String>,
    pub ssh_port: Option<u16>,
    pub ssh_user: Option<String>,
    pub ssh_key_path: Option<String>,
}

/// The summary of a configuration: every field but the two passwords.
pub open spec fn summary_of(c: ConnectionConfig) -> ConnectionSummary {
    ConnectionSummary {
        id: c.id,
        driver: c.driver,
        name: c.name,
        host: c.host,
        port: c.port,
        user: c.user,
        database: c.database,
        exclude_list: c.exclude_list,
        use_ssh: c.use_ssh,
        ssh_host: c.ssh_host,
        ssh_port: c.ssh_port,
        ssh_user: c.ssh_user,
        ssh_key_path: c.ssh_key_path,
    }
}

impl From<ConnectionConfig> for ConnectionSummary {
    fn from(c: ConnectionConfig) -> (r: ConnectionSummary)
        ensures
            r == summary_of(c),
    {
        ConnectionSummary {
            id: c.id,
            driver: c.driver,
            name: c.name,
            host: c.host,
            port: c.port,
            user: c.user,
            database: c.database,
            exclude_list: c.exclude_list,
            use_ssh: c.use_ssh,
            ssh_host: c.ssh_host,
            ssh_port: c.ssh_port,
            ssh_user: c.ssh_user,
            ssh_key_path: c.ssh_key_path,
        }
    }
}

impl vstd::std_specs::convert::FromSpecImpl<ConnectionConfig> for ConnectionSummary {
    open spec fn obeys_from_spec() -> bool {
        true
    }

    open spec fn from_spec(c: ConnectionConfig) -> ConnectionSummary {
        summary_of(c)
    }
}

/// One row: column names with their canonical values. Within a row the
/// names are unique (`names_unique`).
pub type Row = Vec<(String, Value)>;

/// No column name occurs twice.
pub open spec fn names_unique(fields: Seq<(String, Value)>) -> bool {
    forall|i: int, j: int| 0 <= i < j < fields.len() ==> (#[trigger] fields[i]).0@ != (#[trigger] fields[j]).0@
}

/// Whether no column name occurs twice.
pub fn has_unique_names(fields: &Vec<(String, Value)>) -> (r: bool)
    ensures
        r == names_unique(fields@),
{
    let mut j: usize = 0;
    while j < fields.len()
        invariant
            j <= fields.len(),
            forall|a: int, b: int| 0 <= a < b < j ==> (#[trigger] fields@[a]).0@ != (#[trigger] fields@[b]).0@,
        decreases fields.len() - j,
    {
        let mut i: usize = 0;
        while i < j
            invariant
                i <= j < fields.len(),
                forall|a: int, b: int| 0 <= a < b < j ==> (#[trigger] fields@[a]).0@ != (#[trigger] fields@[b]).0@,
                forall|a: int| 0 <= a < i ==> (#[trigger] fields@[a]).0@ != fields@[j as int].0@,
            decreases j - i,
        {
            if same_text(fields[i].0.as_str(), fields[j].0.as_str()) {
                return false;
            }
            i = i + 1;
        }
        j = j + 1;
    }
    true
}

/// A mapping from table name to its ordered column names.
pub type DbSchema = Vec<(String, Vec<String>)>;

/// The outcome of running a statement. When `error` is set the rows and
/// columns are empty; the elapsed time is always measured.
#[derive(Debug)]
pub struct QueryResult {
    pub rows: Vec<Row>,
    pub columns: Vec<String>,
    pub error: Option<String>,
    pub duration_micros: u64,
}

impl QueryResult {
    /// An error envelope carries no data, and every row names each column
    /// at most once.
    pub open spec fn wf(&self) -> bool {
        &&& self.error is Some ==> self.rows.len() == 0 && self.columns.len() == 0
        &&& forall|i: int| 0 <= i < self.rows@.len() ==> names_unique((#[trigger] self.rows@[i])@)
    }

    /// A result with no rows, no columns and no error.
    pub fn empty() -> (r: QueryResult)
        ensures
            r.wf(),
            r.rows.len() == 0,
            r.columns.len() == 0,
            r.error is None,
            r.duration_micros == 0,
    {
        QueryResult { rows: Vec::new(), columns: Vec::new(), error: None, duration_micros: 0 }
    }

    /// The envelope of a failed execution.
    pub fn with_error(error: String, duration_micros: u64) -> (r: QueryResult)
        ensures
            r.wf(),
            r.rows.len() == 0,
            r.columns.len() == 0,
            r.error == Some(error),
            r.duration_micros == duration_micros,
    {
        QueryResult { rows: Vec::new(), columns: Vec::new(), error: Some(error), duration_micros }
    }
}

/// A page of a table, optionally ordered.
#[derive(Debug, Clone)]
pub struct DataRequest {
    pub table_name: String,
    pub offset: i32,
    pub limit: i32,
    pub sort: Option<Vec<SortItem>>,
}

/// One ordering key: a column and a direction (`asc` or `desc`).
#[derive(Debug, Clone)]
pub struct SortItem {
    pub col_id: String,
    pub sort: String,
}

/// A change to one row, identified by its primary-key values.
#[derive(Debug)]
pub struct RowUpdate {
    pub table_name: String,
    pub primary_keys: Vec<(String, Value)>,
    pub changes: Vec<(String, Value)>,
}

impl RowUpdate {
    /// Each of the two maps names every column at most once.
    pub open spec fn wf(&self) -> bool {
        names_unique(self.primary_keys@) && names_unique(self.changes@)
    }
}

/// The outcome of a batch of row updates.
#[derive(Debug, Clone)]
pub struct UpdateResult {
    pub success: bool,
    pub affected_rows: u64,
    pub error: Option<String>,
}

impl UpdateResult {
    /// A successful batch that changed `affected_rows` rows.
    pub fn success(affected_rows: u64) -> (r: UpdateResult)
        ensures
            r.success,
            r.affected_rows == affected_rows,
            r.error is None,
    {
        UpdateResult { success: true, affected_rows, error: None }
    }
}

/// One entry of an engine's activity view.
#[derive(Debug, Clone)]
pub struct TopQuery {
    pub pid: i32,
    pub user: String,
    pub state: String,
    pub duration: String,
    pub query: String,
}

/// Cached metadata of one connection: databases, tables and schemas.
#[derive(Debug, Clone)]
pub struct AppSchemaCache {
    pub databases: Vec<(String, Vec<String>)>,
    pub tables: Vec<(String, Vec<String>)>,
    pub schemas: Vec<(String, DbSchema)>,
}

impl Default for AppSchemaCache {
    fn default() -> (r: AppSchemaCache)
        ensures
            r.databases.len() == 0,
            r.tables.len() == 0,
            r.schemas.len() == 0,
    {
        AppSchemaCache { databases: Vec::new(), tables: Vec::new(), schemas: Vec::new() }
    }
}

} // verus!
