//! The SSH tunnel forwarder's decisions: whether a connection is tunneled,
//! where the tunnel leads, in which order authentication is tried, the
//! listener's lifecycle, and each step of the byte relay.

use vstd::prelude::*;
use vstd::string::*;
use crate::error::DbError;
use crate::models::ConnectionConfig;

verus! {

/// The SSH port used when none is configured.
pub const DEFAULT_SSH_PORT: u16 = 22;

/// Whether the configuration asks for an SSH tunnel.
pub open spec fn tunnel_requested(config: ConnectionConfig) -> bool {
    config.use_ssh == Some(true) && config.ssh_host is Some
}

/// Whether `connect` must start a forwarder for this configuration.
pub fn wants_tunnel(config: &ConnectionConfig) -> (r: bool)
    ensures
        r == tunnel_requested(*config),
{
    match config.use_ssh {
        Some(true) => config.ssh_host.is_some(),
        _ => false,
    }
}

/// The working copy of a configuration that a driver sees when tunneled:
/// the target becomes the local end of the tunnel, all else is kept.
pub fn through_tunnel(config: ConnectionConfig, local_port: u16) -> (r: ConnectionConfig)
    ensures
        r.host@ == "127.0.0.1"@,
        r == (ConnectionConfig { host: r.host, port: local_port, ..config }),
{
    ConnectionConfig { host: String::from_str("127.0.0.1"), port: local_port, ..config }
}

/// One way of authenticating an SSH session.
#[derive(Debug)]
pub enum AuthMethod {
    Password(String),
    KeyFile(String),
    Agent,
}

/// A secret that is present and not empty.
pub open spec fn usable(s: Option<String>) -> bool {
    s is Some && s->0@.len() > 0
}

/// Where a tunnel leads and how each session of it authenticates.
#[derive(Debug)]
pub struct TunnelPlan {
    pub ssh_host: String,
    pub ssh_port: u16,
    pub ssh_user: String,
    pub remote_host: String,
    pub remote_port: u16,
    /// Tried in order for every forwarded connection; the first success wins.
    pub auth: Vec<AuthMethod>,
}

/// The authentication order: the password if one is given, then the key
/// file if one is given, then the agent.
pub open spec fn auth_order_ok(config: ConnectionConfig, auth: Seq<AuthMethod>) -> bool {
    let p: int = if usable(config.ssh_password) { 1 } else { 0 };
    let k: int = if usable(config.ssh_key_path) { 1 } else { 0 };
    &&& auth.len() == p + k + 1
    &&& usable(config.ssh_password) ==> auth[0] is Password && auth[0]->Password_0 == config.ssh_password->0
    &&& usable(config.ssh_key_path) ==> auth[p] is KeyFile && auth[p]->KeyFile_0 == config.ssh_key_path->0
    &&& auth[p + k] is Agent
}

/// Checks the tunnel part of a configuration and lays out the tunnel to
/// `remote_host:remote_port`. A missing SSH host or user fails before any
/// network attempt.
pub fn plan_tunnel(config: &ConnectionConfig, remote_host: &str, remote_port: u16) -> (r: Result<
    TunnelPlan,
    DbError,
>)
    ensures
        r is Ok <==> config.ssh_host is Some && config.ssh_user is Some,
        r is Err ==> r->Err_0 is Ssh,
        r is Ok ==> {
            let p = r->Ok_0;
            &&& p.ssh_host == config.ssh_host->0
            &&& p.ssh_user == config.ssh_user->0
            &&& p.ssh_port == match config.ssh_port { Some(port) => port, None => DEFAULT_SSH_PORT }
            &&& p.remote_host@ == remote_host@
            &&& p.remote_port == remote_port
            &&& auth_order_ok(*config, p.auth@)
        },
{
    let ssh_host = match &config.ssh_host {
        Some(h) => h.clone(),
        None => return Err(DbError::Ssh(String::from_str("Missing SSH host or user"))),
    };
    let ssh_user = match &config.ssh_user {
        Some(u) => u.clone(),
        None => return Err(DbError::Ssh(String::from_str("Missing SSH host or user"))),
    };
    let ssh_port = match config.ssh_port {
        Some(p) => p,
        None => DEFAULT_SSH_PORT,
    };
    let mut auth: Vec<AuthMethod> = Vec::new();
    match &config.ssh_password {
        Some(pw) => {
            if pw.as_str().unicode_len() > 0 {
                auth.push(AuthMethod::Password(pw.clone()));
            }
        },
        None => {},
    }
    match &config.ssh_key_path {
        Some(k) => {
            if k.as_str().unicode_len() > 0 {
                auth.push(AuthMethod::KeyFile(k.clone()));
            }
        },
        None => {},
    }
    auth.push(AuthMethod::Agent);
    Ok(TunnelPlan {
        ssh_host,
        ssh_port,
        ssh_user,
        remote_host: String::from_str(remote_host),
        remote_port,
        auth,
    })
}

/// The phases of a forwarder.
#[derive(Debug, Clone, Copy, PartialEq, Eq, Structural)]
pub enum TunnelPhase {
    Idle,
    Listening,
    Stopped,
}

/// The lifecycle of one forwarder: idle until its listener is bound,
/// listening until closed, stopped for good after that. Connections that
/// are already forwarding drain on their own.
#[derive(Debug)]
pub struct SshTunnelService {
    phase: TunnelPhase,
    local_port: u16,
}

impl SshTunnelService {
    /// The phase the forwarder is in.
    pub closed spec fn spec_phase(&self) -> TunnelPhase {
        self.phase
    }

    /// The local port it listens on, once listening.
    pub closed spec fn spec_local_port(&self) -> u16 {
        self.local_port
    }

    /// A forwarder whose listener is not bound yet.
    pub fn new() -> (r: SshTunnelService)
        ensures
            r.spec_phase() == TunnelPhase::Idle,
    {
        SshTunnelService { phase: TunnelPhase::Idle, local_port: 0 }
    }

    /// Records that the listener is bound on `local_port`. Only an idle
    /// forwarder can start.
    pub fn listening(&mut self, local_port: u16) -> (r: Result<u16, DbError>)
        ensures
            old(self).spec_phase() == TunnelPhase::Idle ==> r == Ok::<u16, DbError>(local_port)
                && final(self).spec_phase() == TunnelPhase::Listening
                && final(self).spec_local_port() == local_port,
            old(self).spec_phase() != TunnelPhase::Idle ==> r is Err && r->Err_0 is Ssh && *final(self)
                == *old(self),
    {
        match self.phase {
            TunnelPhase::Idle => {
                self.phase = TunnelPhase::Listening;
                self.local_port = local_port;
                Ok(local_port)
            },
            _ => Err(DbError::Ssh(String::from_str("Tunnel already started"))),
        }
    }

    /// The phase the forwarder is in.
    pub fn phase(&self) -> (r: TunnelPhase)
        ensures
            r == self.spec_phase(),
    {
        self.phase
    }

    /// Whether a newly accepted local connection is forwarded.
    pub fn accepts(&self) -> (r: bool)
        ensures
            r == (self.spec_phase() == TunnelPhase::Listening),
    {
        self.phase == TunnelPhase::Listening
    }

    /// Stops accepting. Returns whether the listener must be signalled,
    /// which is so only for the first close of a listening forwarder.
    pub fn close(&mut self) -> (signal: bool)
        ensures
            signal == (old(self).spec_phase() == TunnelPhase::Listening),
            old(self).spec_phase() == TunnelPhase::Idle ==> final(self).spec_phase() == TunnelPhase::Idle,
            old(self).spec_phase() != TunnelPhase::Idle ==> final(self).spec_phase() == TunnelPhase::Stopped,
    {
        match self.phase {
            TunnelPhase::Listening => {
                self.phase = TunnelPhase::Stopped;
                true
            },
            _ => false,
        }
    }
}

/// What a non-blocking read from one side of a relay gave.
#[derive(Debug, Clone, Copy, PartialEq, Eq, Structural)]
pub enum ReadOutcome {
    /// Some bytes; zero means the side reached end of stream.
    Bytes(u64),
    WouldBlock,
    Failed,
}

/// What the relay does after a read.
#[derive(Debug, Clone, Copy, PartialEq, Eq, Structural)]
pub enum RelayStep {
    /// Forward this many bytes to the other side.
    Forward(u64),
    /// Nothing to do on this side this round.
    Nothing,
    /// End this connection's forwarding.
    Finish,
}

/// Decides after a read: data is forwarded, end of stream or an error ends
/// the connection, and a read that would block does nothing.
pub fn after_read(outcome: ReadOutcome) -> (r: RelayStep)
    ensures
        r == match outcome {
            ReadOutcome::Bytes(n) => if n == 0 { RelayStep::Finish } else { RelayStep::Forward(n) },
            ReadOutcome::WouldBlock => RelayStep::Nothing,
            ReadOutcome::Failed => RelayStep::Finish,
        },
{
    match outcome {
        ReadOutcome::Bytes(n) => if n == 0 { RelayStep::Finish } else { RelayStep::Forward(n) },
        ReadOutcome::WouldBlock => RelayStep::Nothing,
        ReadOutcome::Failed => RelayStep::Finish,
    }
}

/// What a non-blocking write gave.
#[derive(Debug, Clone, Copy, PartialEq, Eq, Structural)]
pub enum WriteOutcome {
    Wrote(u64),
    WouldBlock,
    Failed,
}

/// What the relay does while pushing a chunk to the other side.
#[derive(Debug, Clone, Copy, PartialEq, Eq, Structural)]
pub enum WriteStep {
    /// This many bytes of the chunk are now written.
    Advance(u64),
    /// Pause briefly, then try again.
    Wait,
    /// End this connection's forwarding.
    Finish,
}

/// Decides after a write of the rest of a `total`-byte chunk of which
/// `written` bytes were already written. A writer that accepts nothing, or
/// fails, ends the connection.
pub fn after_write(written: u64, total: u64, outcome: WriteOutcome) -> (r: WriteStep)
    requires
        written < total,
    ensures
        r == match outcome {
            WriteOutcome::Wrote(w) => if w == 0 {
                WriteStep::Finish
            } else if w >= total - written {
                WriteStep::Advance(total)
            } else {
                WriteStep::Advance((written + w) as u64)
            },
            WriteOutcome::WouldBlock => WriteStep::Wait,
            WriteOutcome::Failed => WriteStep::Finish,
        },
{
    match outcome {
        WriteOutcome::Wrote(w) => if w == 0 {
            WriteStep::Finish
        } else if w >= total - written {
            WriteStep::Advance(total)
        } else {
            WriteStep::Advance(written + w)
        },
        WriteOutcome::WouldBlock => WriteStep::Wait,
        WriteOutcome::Failed => WriteStep::Finish,
    }
}

} // verus!
