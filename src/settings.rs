//! Application settings and saved UI state, with their defaults, and the
//! saved-connection record as the settings store keeps it.

use vstd::prelude::*;
use vstd::string::*;
use crate::models::{summary_of, ConnectionConfig, ConnectionSummary};
use crate::text::same_text;

verus! {

/// User preferences.
#[derive(Debug, Clone)]
pub struct AppSettings {
    pub theme: String,
    pub locale: String,
    pub font_size: i32,
}

impl Default for AppSettings {
    fn default() -> (r: AppSettings)
        ensures
            r.theme@ == "atom-one-dark"@,
            r.locale@ == "en"@,
            r.font_size == 14,
    {
        AppSettings {
            theme: String::from_str("atom-one-dark"),
            locale: String::from_str("en"),
            font_size: 14,
        }
    }
}

/// One open editor tab, as saved.
#[derive(Debug, Clone)]
pub struct SerializableTab {
    pub id: i32,
    pub tab_type: String,
    pub name: String,
    pub connection_id: Option<String>,
    pub database: Option<String>,
    pub sql: Option<String>,
    pub table_name: Option<String>,
    pub content: Option<String>,
}

/// The open tabs and which one is active.
#[derive(Debug, Clone)]
pub struct TabsState {
    pub open_tabs: Vec<SerializableTab>,
    pub active_tab_id: Option<i32>,
    pub next_tab_id: i32,
}

impl Default for TabsState {
    fn default() -> (r: TabsState)
        ensures
            r.open_tabs@.len() == 0,
            r.active_tab_id is None,
            r.next_tab_id == 1,
    {
        TabsState { open_tabs: Vec::new(), active_tab_id: None, next_tab_id: 1 }
    }
}

/// Layout of the main window.
#[derive(Debug, Clone)]
pub struct UiState {
    pub sidebar_width: i32,
    pub editor_height: i32,
    pub expanded_connections: Vec<String>,
}

impl Default for UiState {
    fn default() -> (r: UiState)
        ensures
            r.sidebar_width == 250,
            r.editor_height == 300,
            r.expanded_connections@.len() == 0,
    {
        UiState { sidebar_width: 250, editor_height: 300, expanded_connections: Vec::new() }
    }
}

/// Everything saved about the UI between runs.
#[derive(Debug, Clone)]
pub struct AppStateData {
    pub tabs: TabsState,
    pub ui: UiState,
}

impl Default for AppStateData {
    fn default() -> (r: AppStateData)
        ensures
            r.tabs.open_tabs@.len() == 0,
            r.tabs.active_tab_id is None,
            r.tabs.next_tab_id == 1,
            r.ui.sidebar_width == 250,
            r.ui.editor_height == 300,
            r.ui.expanded_connections@.len() == 0,
    {
        AppStateData { tabs: TabsState::default(), ui: UiState::default() }
    }
}

/// A saved connection, with its ports kept as entered.
#[derive(Debug, Clone)]
pub struct DbConnection {
    pub id: String,
    pub db_type: String,
    pub name: String,
    pub host: String,
    pub port: String,
    pub user: String,
    pub password: Option<String>,
    pub database: String,
    pub exclude_list: Option<String>,
    pub use_ssh: Option<bool>,
    pub ssh_host: Option<String>,
    pub ssh_port: Option<String>,
    pub ssh_user: Option<String>,
    pub ssh_password: Option<String>,
    pub ssh_key_path: Option<String>,
}

/// A saved connection without its secrets.
#[derive(Debug, Clone)]
pub struct DbConnectionMeta {
    pub id: String,
    pub db_type: String,
    pub name: String,
    pub host: String,
    pub port: String,
    pub user: String,
    pub database: String,
    pub exclude_list: Option<String>,
    pub use_ssh: Option<bool>,
    pub ssh_host: Option<String>,
    pub ssh_port: Option<String>,
    pub ssh_user: Option<String>,
    pub ssh_key_path: Option<String>,
}

/// A secret that was left out: absent or empty.
pub open spec fn missing(s: Option<String>) -> bool {
    s is None || s->0@.len() == 0
}

/// Fills the secrets a user left out from the saved copy of the same
/// connection, so that a connection can be tested without retyping them.
pub fn merge_saved_secrets(config: ConnectionConfig, saved: &ConnectionConfig) -> (r: ConnectionConfig)
    ensures
        r.password == if missing(config.password) { saved.password } else { config.password },
        r.ssh_password == if missing(config.ssh_password) { saved.ssh_password } else { config.ssh_password },
        r == (ConnectionConfig { password: r.password, ssh_password: r.ssh_password, ..config }),
{
    let take_password = match &config.password {
        Some(p) => p.as_str().unicode_len() == 0,
        None => true,
    };
    let take_ssh_password = match &config.ssh_password {
        Some(p) => p.as_str().unicode_len() == 0,
        None => true,
    };
    let password = if take_password { clone_secret(&saved.password) } else { config.password };
    let ssh_password = if take_ssh_password { clone_secret(&saved.ssh_password) } else { config.ssh_password };
    ConnectionConfig { password, ssh_password, ..config }
}

fn clone_secret(s: &Option<String>) -> (r: Option<String>)
    ensures
        r == *s,
{
    match s {
        Some(v) => Some(v.clone()),
        None => None,
    }
}

/// The position of the first saved connection with this id.
pub open spec fn position_of(list: Seq<ConnectionConfig>, id: Seq<char>) -> Option<int>
    decreases list.len(),
{
    if list.len() == 0 {
        None
    } else {
        match position_of(list.drop_last(), id) {
            Some(k) => Some(k),
            None => if list.last().id@ == id { Some(list.len() - 1) } else { None },
        }
    }
}

proof fn lemma_position_of(list: Seq<ConnectionConfig>, id: Seq<char>)
    ensures
        position_of(list, id) is Some ==> {
            let k = position_of(list, id)->0;
            &&& 0 <= k < list.len()
            &&& list[k].id@ == id
            &&& forall|j: int| 0 <= j < k ==> list[j].id@ != id
        },
        position_of(list, id) is None ==> forall|j: int| 0 <= j < list.len() ==> list[j].id@ != id,
    decreases list.len(),
{
    if list.len() > 0 {
        lemma_position_of(list.drop_last(), id);
        assert forall|j: int| 0 <= j < list.len() - 1 implies list[j] == list.drop_last()[j] by {}
    }
}

fn find_position(list: &Vec<ConnectionConfig>, id: &str) -> (r: Option<usize>)
    ensures
        r is Some <==> position_of(list@, id@) is Some,
        r is Some ==> r->0 as int == position_of(list@, id@)->0,
{
    proof {
        lemma_position_of(list@, id@);
    }
    let mut i: usize = 0;
    while i < list.len()
        invariant
            i <= list.len(),
            forall|j: int| 0 <= j < i ==> list@[j].id@ != id@,
            position_of(list@, id@) is Some ==> {
                let k = position_of(list@, id@)->0;
                &&& 0 <= k < list@.len()
                &&& list@[k].id@ == id@
                &&& forall|j: int| 0 <= j < k ==> list@[j].id@ != id@
            },
            position_of(list@, id@) is None ==> forall|j: int| 0 <= j < list@.len() ==> list@[j].id@ != id@,
        decreases list.len() - i,
    {
        if same_text(list[i].id.as_str(), id) {
            return Some(i);
        }
        i = i + 1;
    }
    None
}

/// A saved connection after an edit: a secret the edit leaves out (absent)
/// keeps its saved value.
pub open spec fn merged_edit(edit: ConnectionConfig, saved: ConnectionConfig) -> ConnectionConfig {
    ConnectionConfig {
        password: if edit.password is None { saved.password } else { edit.password },
        ssh_password: if edit.ssh_password is None { saved.ssh_password } else { edit.ssh_password },
        ..edit
    }
}

/// Saves a connection into the list: it replaces the first entry with the
/// same id, keeping that entry's secrets where the edit has none, or is
/// appended when the id is new.
pub fn upsert_connection(list: Vec<ConnectionConfig>, connection: ConnectionConfig) -> (r: Vec<ConnectionConfig>)
    ensures
        position_of(list@, connection.id@) is None ==> r@ == list@.push(connection),
        position_of(list@, connection.id@) is Some ==> r@ == list@.update(
            position_of(list@, connection.id@)->0,
            merged_edit(connection, list@[position_of(list@, connection.id@)->0]),
        ),
{
    let mut list = list;
    proof {
        lemma_position_of(list@, connection.id@);
    }
    match find_position(&list, connection.id.as_str()) {
        Some(k) => {
            let password = match connection.password {
                Some(p) => Some(p),
                None => clone_secret(&list[k].password),
            };
            let ssh_password = match connection.ssh_password {
                Some(p) => Some(p),
                None => clone_secret(&list[k].ssh_password),
            };
            let merged = ConnectionConfig { password, ssh_password, ..connection };
            list.set(k, merged);
            list
        },
        None => {
            list.push(connection);
            list
        },
    }
}

/// The saved connections other than those with this id, in order.
pub open spec fn without_id(list: Seq<ConnectionConfig>, id: Seq<char>) -> Seq<ConnectionConfig>
    decreases list.len(),
{
    if list.len() == 0 {
        list
    } else {
        let rest = without_id(list.drop_last(), id);
        if list.last().id@ == id { rest } else { rest.push(list.last()) }
    }
}

/// Deletes every saved connection with this id.
pub fn remove_connection(list: Vec<ConnectionConfig>, id: &str) -> (r: Vec<ConnectionConfig>)
    ensures
        r@ == without_id(list@, id@),
{
    let mut rest = list;
    let ghost all = rest@;
    let mut out: Vec<ConnectionConfig> = Vec::new();
    let ghost mut taken: int = 0;
    while rest.len() > 0
        invariant
            all == list@,
            0 <= taken <= all.len(),
            rest@ == all.subrange(taken, all.len() as int),
            out@ == without_id(all.subrange(0, taken), id@),
        decreases rest.len(),
    {
        let c = rest.remove(0);
        assert(c == all[taken]);
        assert(all.subrange(0, taken + 1).drop_last() =~= all.subrange(0, taken));
        if !same_text(c.id.as_str(), id) {
            out.push(c);
        }
        proof {
            taken = taken + 1;
        }
        assert(rest@ =~= all.subrange(taken, all.len() as int));
    }
    assert(all.subrange(0, all.len() as int) =~= all);
    out
}

/// The marker that starts a secret stored encrypted.
pub open spec fn encrypted_marker() -> Seq<char> {
    "ENC:"@
}

/// Whether a stored secret is already encrypted.
pub open spec fn is_encrypted(s: Seq<char>) -> bool {
    s.len() >= 4 && s.subrange(0, 4) == encrypted_marker()
}

/// Whether a secret must be encrypted before it is stored: present, not
/// empty, and not encrypted already.
pub fn needs_encryption(secret: &Option<String>) -> (r: bool)
    ensures
        r == (secret is Some && secret->0@.len() > 0 && !is_encrypted(secret->0@)),
{
    match secret {
        Some(s) => s.as_str().unicode_len() > 0 && !stored_encrypted(s.as_str()),
        None => false,
    }
}

/// Whether a stored secret is encrypted and must be decrypted on load.
pub fn stored_encrypted(s: &str) -> (r: bool)
    ensures
        r == is_encrypted(s@),
{
    proof {
        reveal_strlit("ENC:");
    }
    if s.unicode_len() < 4 {
        return false;
    }
    let head = s.substring_char(0, 4);
    same_text(head, "ENC:")
}

/// The connections as listed to a user, without secrets.
pub fn summaries(list: Vec<ConnectionConfig>) -> (r: Vec<ConnectionSummary>)
    ensures
        r@.len() == list@.len(),
        forall|i: int| 0 <= i < list@.len() ==> #[trigger] r@[i] == summary_of(list@[i]),
{
    let mut rest = list;
    let ghost all = rest@;
    let mut out: Vec<ConnectionSummary> = Vec::new();
    while rest.len() > 0
        invariant
            all == list@,
            out@.len() + rest@.len() == all.len(),
            rest@ == all.subrange(out@.len() as int, all.len() as int),
            forall|i: int| 0 <= i < out@.len() ==> #[trigger] out@[i] == summary_of(all[i]),
        decreases rest.len(),
    {
        let c = rest.remove(0);
        assert(c == all[out@.len() as int]);
        out.push(ConnectionSummary::from(c));
        assert(rest@ =~= all.subrange(out@.len() as int, all.len() as int));
    }
    out
}

} // verus!
