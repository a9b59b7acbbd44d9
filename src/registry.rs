//! The registry of live sessions: at most one per connection id, each with
//! the tunnel that serves it, if any.
//!
//! Sessions and tunnels themselves live with the caller, under handles; the
//! registry decides which handle an id names and which handles must be
//! torn down, and in what order relative to registration.

use vstd::prelude::*;
use crate::error::DbError;
use crate::text::same_text;

verus! {

/// Handles bound to connection ids, later entries shadowing earlier ones.
pub type Bindings = Vec<(String, u64)>;

/// The handle bound to `id`, if any.
pub open spec fn handle_of(entries: Seq<(String, u64)>, id: Seq<char>) -> Option<u64>
    decreases entries.len(),
{
    if entries.len() == 0 {
        None
    } else if entries.last().0@ == id {
        Some(entries.last().1)
    } else {
        handle_of(entries.drop_last(), id)
    }
}

/// `entries` with every binding of `id` dropped.
pub open spec fn unbound(entries: Seq<(String, u64)>, id: Seq<char>) -> Seq<(String, u64)>
    decreases entries.len(),
{
    if entries.len() == 0 {
        entries
    } else {
        let rest = unbound(entries.drop_last(), id);
        if entries.last().0@ == id {
            rest
        } else {
            rest.push(entries.last())
        }
    }
}

/// After unbinding `id`, `id` names nothing and every other id names what
/// it named before.
pub proof fn lemma_unbound(entries: Seq<(String, u64)>, id: Seq<char>, other: Seq<char>)
    ensures
        handle_of(unbound(entries, id), id) is None,
        other != id ==> handle_of(unbound(entries, id), other) == handle_of(entries, other),
    decreases entries.len(),
{
    if entries.len() > 0 {
        lemma_unbound(entries.drop_last(), id, other);
        let rest = unbound(entries.drop_last(), id);
        if entries.last().0@ != id {
            assert(rest.push(entries.last()).drop_last() =~= rest);
        }
    }
}

/// What must be torn down for one id: its session and its tunnel.
#[derive(Debug, Clone, Copy, PartialEq, Eq, Structural)]
pub struct Teardown {
    pub session: Option<u64>,
    pub tunnel: Option<u64>,
}

/// A connect in progress: the id is already unbound, and the old session
/// has been handed out for teardown.
#[derive(Debug)]
pub struct PendingConnect {
    pub id: String,
    pub displaced: Teardown,
}

/// Live sessions and tunnels by connection id.
#[derive(Debug)]
pub struct SessionRegistry {
    sessions: Bindings,
    tunnels: Bindings,
}

impl SessionRegistry {
    /// The session handle bound to `id`.
    pub closed spec fn session_of(&self, id: Seq<char>) -> Option<u64> {
        handle_of(self.sessions@, id)
    }

    /// The tunnel handle bound to `id`.
    pub closed spec fn tunnel_of(&self, id: Seq<char>) -> Option<u64> {
        handle_of(self.tunnels@, id)
    }

    /// `next` is `self` with `id` unbound, and `t` holds what `id` held.
    pub open spec fn unbinds(self, next: SessionRegistry, id: Seq<char>, t: Teardown) -> bool {
        &&& t.session == self.session_of(id)
        &&& t.tunnel == self.tunnel_of(id)
        &&& next.session_of(id) is None
        &&& next.tunnel_of(id) is None
        &&& forall|other: Seq<char>| other != id ==> next.session_of(other) == self.session_of(other)
        &&& forall|other: Seq<char>| other != id ==> next.tunnel_of(other) == self.tunnel_of(other)
    }

    /// `next` is `self` with `id` bound to `session` and `tunnel`, and `t`
    /// holds what `id` held before.
    pub open spec fn binds(
        self,
        next: SessionRegistry,
        id: Seq<char>,
        session: u64,
        tunnel: Option<u64>,
        t: Teardown,
    ) -> bool {
        &&& t.session == self.session_of(id)
        &&& t.tunnel == self.tunnel_of(id)
        &&& next.session_of(id) == Some(session)
        &&& next.tunnel_of(id) == tunnel
        &&& forall|other: Seq<char>| other != id ==> next.session_of(other) == self.session_of(other)
        &&& forall|other: Seq<char>| other != id ==> next.tunnel_of(other) == self.tunnel_of(other)
    }

    /// A registry with nothing bound.
    pub fn new() -> (r: SessionRegistry)
        ensures
            forall|id: Seq<char>| r.session_of(id) is None && r.tunnel_of(id) is None,
    {
        SessionRegistry { sessions: Vec::new(), tunnels: Vec::new() }
    }

    /// The session bound to `id`, or connection-not-found.
    pub fn lookup(&self, id: &str) -> (r: Result<u64, DbError>)
        ensures
            r is Ok <==> self.session_of(id@) is Some,
            r is Ok ==> Some(r->Ok_0) == self.session_of(id@),
            r is Err ==> r->Err_0 is ConnectionNotFound && r->Err_0->ConnectionNotFound_0@ == id@,
    {
        match find(&self.sessions, id) {
            Some(h) => Ok(h),
            None => Err(DbError::ConnectionNotFound(String::from_str(id))),
        }
    }

    /// Unbinds `id` and hands back what it held, for teardown.
    pub fn disconnect(&mut self, id: &str) -> (t: Teardown)
        ensures
            old(self).unbinds(*final(self), id@, t),
    {
        let session = find(&self.sessions, id);
        let tunnel = find(&self.tunnels, id);
        let ghost old_sessions = self.sessions@;
        let ghost old_tunnels = self.tunnels@;
        self.sessions = unbind(&self.sessions, id);
        self.tunnels = unbind(&self.tunnels, id);
        proof {
            lemma_unbound(old_sessions, id@, id@);
            lemma_unbound(old_tunnels, id@, id@);
            assert forall|other: Seq<char>| other != id@ implies
                self.session_of(other) == handle_of(old_sessions, other)
                && self.tunnel_of(other) == handle_of(old_tunnels, other) by {
                lemma_unbound(old_sessions, id@, other);
                lemma_unbound(old_tunnels, id@, other);
            }
        }
        Teardown { session, tunnel }
    }

    /// First half of a connect: whatever `id` held is unbound before
    /// anything new is bound, and is handed back for teardown.
    pub fn begin_connect(&mut self, id: &str) -> (p: PendingConnect)
        ensures
            p.id@ == id@,
            old(self).unbinds(*final(self), id@, p.displaced),
    {
        let displaced = self.disconnect(id);
        PendingConnect { id: String::from_str(id), displaced }
    }

    /// Second half of a connect, once the driver's handshake succeeded: the
    /// new session (and its tunnel, if any) becomes visible under the id.
    /// Anything bound to the id in the meantime is handed back for teardown.
    pub fn complete_connect(&mut self, pending: PendingConnect, session: u64, tunnel: Option<u64>) -> (t:
        Teardown)
        ensures
            old(self).binds(*final(self), pending.id@, session, tunnel, t),
    {
        let t = self.disconnect(pending.id.as_str());
        let ghost mid_sessions = self.sessions@;
        let ghost mid_tunnels = self.tunnels@;
        self.sessions.push((pending.id.clone(), session));
        assert(self.sessions@.drop_last() =~= mid_sessions);
        match tunnel {
            Some(h) => {
                self.tunnels.push((pending.id.clone(), h));
                assert(self.tunnels@.drop_last() =~= mid_tunnels);
            },
            None => {},
        }
        t
    }
}

/// Reconnecting an id never leaves two sessions queryable under it: the
/// first half of a connect hands the old session out for teardown and
/// leaves the id unbound, and only the second half makes the new session
/// visible, as the only one.
pub proof fn law_connect_replaces_old_session(
    r0: SessionRegistry,
    r1: SessionRegistry,
    r2: SessionRegistry,
    id: Seq<char>,
    displaced: Teardown,
    session: u64,
    tunnel: Option<u64>,
    t: Teardown,
)
    requires
        r0.unbinds(r1, id, displaced),
        r1.binds(r2, id, session, tunnel, t),
    ensures
        displaced.session == r0.session_of(id),
        displaced.tunnel == r0.tunnel_of(id),
        r1.session_of(id) is None,
        r2.session_of(id) == Some(session),
        t.session is None && t.tunnel is None,
        forall|other: Seq<char>| other != id ==> r2.session_of(other) == r0.session_of(other),
{
}

/// After an id is disconnected it names no session, and unbinding other
/// ids keeps it so: every lookup of it fails with connection-not-found
/// until it is connected again.
pub proof fn law_disconnected_id_stays_unknown(
    r0: SessionRegistry,
    r1: SessionRegistry,
    r2: SessionRegistry,
    id: Seq<char>,
    other: Seq<char>,
    t1: Teardown,
    t2: Teardown,
)
    requires
        r0.unbinds(r1, id, t1),
        r1.unbinds(r2, other, t2),
    ensures
        r1.session_of(id) is None,
        r1.tunnel_of(id) is None,
        r2.session_of(id) is None,
        r2.tunnel_of(id) is None,
{
}

fn find(entries: &Bindings, id: &str) -> (r: Option<u64>)
    ensures
        r == handle_of(entries@, id@),
{
    let mut i: usize = entries.len();
    assert(entries@.subrange(0, i as int) =~= entries@);
    while i > 0
        invariant
            i <= entries.len(),
            handle_of(entries@, id@) == handle_of(entries@.subrange(0, i as int), id@),
        decreases i,
    {
        assert(entries@.subrange(0, i as int).drop_last() =~= entries@.subrange(0, i as int - 1));
        i = i - 1;
        if same_text(entries[i].0.as_str(), id) {
            return Some(entries[i].1);
        }
    }
    None
}

fn unbind(entries: &Bindings, id: &str) -> (r: Bindings)
    ensures
        r@ == unbound(entries@, id@),
{
    let mut out: Bindings = Vec::new();
    let mut i: usize = 0;
    while i < entries.len()
        invariant
            i <= entries.len(),
            out@ == unbound(entries@.subrange(0, i as int), id@),
        decreases entries.len() - i,
    {
        assert(entries@.subrange(0, i as int + 1).drop_last() =~= entries@.subrange(0, i as int));
        if !same_text(entries[i].0.as_str(), id) {
            out.push((entries[i].0.clone(), entries[i].1));
        }
        i = i + 1;
    }
    assert(entries@.subrange(0, entries.len() as int) =~= entries@);
    out
}

} // verus!
