//! The admission protocol as a whole: every session of the service,
//! the registry, and the destination files, modelled as a transition
//! system. The service's scheduler may interleave sessions arbitrarily;
//! the inductive invariant proved here shows that at any instant at
//! most one session per destination path can write, and that a session
//! admitted by preemption starts only after its predecessor has
//! confirmed relinquishing — so their writes never interleave.

use vstd::prelude::*;

use crate::registry::Registry;

verus! {

/// Where one session stands. `Waiting` is a registering session
/// blocked on its predecessor's relinquish confirmation;
/// `CancelPending` is a session whose cancellation signal has been
/// sent but not yet consumed — it may still be mid-write.
pub enum ModelPhase {
    Handshaking,
    Waiting { old_session: nat },
    Streaming,
    CancelPending,
    Killed,
    Completed,
    Errored,
}

/// The session a phase is waiting on, if it is the waiting phase.
pub open spec fn waiting_on(ph: ModelPhase) -> Option<nat> {
    match ph {
        ModelPhase::Waiting { old_session } => Some(old_session),
        _ => None,
    }
}

/// Phases in which a session holds write access to its path.
pub open spec fn can_write(ph: ModelPhase) -> bool {
    ph is Streaming || ph is CancelPending
}

/// Phases a session never leaves.
pub open spec fn is_done(ph: ModelPhase) -> bool {
    ph is Killed || ph is Completed || ph is Errored
}

/// One session: its phase and its destination path.
pub struct ModelSession {
    pub phase: ModelPhase,
    pub path: Seq<u8>,
}

/// The whole service: sessions by identity, the admission registry,
/// and the destination files' contents.
pub struct Model {
    pub sessions: Map<nat, ModelSession>,
    pub registry: Map<Seq<u8>, nat>,
    pub files: Map<Seq<u8>, Seq<u8>>,
}

/// Startup: no sessions and an empty registry; files may hold stale
/// content from earlier runs.
pub open spec fn init(m: Model) -> bool {
    &&& m.sessions == Map::<nat, ModelSession>::empty()
    &&& m.registry == Map::<Seq<u8>, nat>::empty()
}

/// No session bound for this path is waiting on a predecessor:
/// registrations for one path are serialized, so a new one may begin
/// only once no other registration for the path is in flight.
pub open spec fn no_waiter_for(m: Model, p: Seq<u8>) -> bool {
    forall|j: nat|
        #[trigger] m.sessions.dom().contains(j) && m.sessions[j].path == p ==> waiting_on(
            m.sessions[j].phase,
        ) is None
}

/// A connection finished its upload handshake: a fresh session appears.
pub open spec fn step_connect(pre: Model, post: Model, id: nat, path: Seq<u8>) -> bool {
    &&& !pre.sessions.dom().contains(id)
    &&& post.sessions == pre.sessions.insert(
        id,
        ModelSession { phase: ModelPhase::Handshaking, path },
    )
    &&& post.registry == pre.registry
    &&& post.files == pre.files
}

/// Registration of an unoccupied path: the session is admitted at
/// once, becomes the path's registry entry, and the destination file
/// is opened fresh, clearing stale content.
pub open spec fn step_register_free(pre: Model, post: Model, id: nat) -> bool {
    &&& pre.sessions.dom().contains(id)
    &&& pre.sessions[id].phase is Handshaking
    &&& !pre.registry.dom().contains(pre.sessions[id].path)
    &&& no_waiter_for(pre, pre.sessions[id].path)
    &&& post.sessions == pre.sessions.insert(
        id,
        ModelSession { phase: ModelPhase::Streaming, path: pre.sessions[id].path },
    )
    &&& post.registry == pre.registry.insert(pre.sessions[id].path, id)
    &&& post.files == pre.files.insert(pre.sessions[id].path, Seq::<u8>::empty())
}

/// Registration of an occupied path: the old entry is removed, the old
/// session's cancellation signal is sent, and the new session blocks
/// until the old one confirms.
pub open spec fn step_register_preempt(pre: Model, post: Model, id: nat, old_id: nat) -> bool {
    &&& pre.sessions.dom().contains(id)
    &&& pre.sessions[id].phase is Handshaking
    &&& pre.sessions.dom().contains(old_id)
    &&& pre.registry.dom().contains(pre.sessions[id].path)
    &&& pre.registry[pre.sessions[id].path] == old_id
    &&& no_waiter_for(pre, pre.sessions[id].path)
    &&& post.sessions == pre.sessions.insert(
        old_id,
        ModelSession { phase: ModelPhase::CancelPending, path: pre.sessions[old_id].path },
    ).insert(
        id,
        ModelSession {
            phase: ModelPhase::Waiting { old_session: old_id },
            path: pre.sessions[id].path,
        },
    )
    &&& post.registry == pre.registry.remove(pre.sessions[id].path)
    &&& post.files == pre.files
}

/// The signalled session consumes its cancellation signal and sends
/// the relinquish confirmation: from here it writes no more.
pub open spec fn step_confirm(pre: Model, post: Model, id: nat) -> bool {
    &&& pre.sessions.dom().contains(id)
    &&& pre.sessions[id].phase is CancelPending
    &&& post.sessions == pre.sessions.insert(
        id,
        ModelSession { phase: ModelPhase::Killed, path: pre.sessions[id].path },
    )
    &&& post.registry == pre.registry
    &&& post.files == pre.files
}

/// The waiting session's registration returns: its predecessor has
/// confirmed (or exited on its own), so the session is admitted, takes
/// the registry slot, and the destination file is opened fresh.
pub open spec fn step_admit(pre: Model, post: Model, id: nat) -> bool {
    &&& pre.sessions.dom().contains(id)
    &&& match waiting_on(pre.sessions[id].phase) {
        Some(o) => pre.sessions.dom().contains(o) && is_done(pre.sessions[o].phase),
        None => false,
    }
    &&& post.sessions == pre.sessions.insert(
        id,
        ModelSession { phase: ModelPhase::Streaming, path: pre.sessions[id].path },
    )
    &&& post.registry == pre.registry.insert(pre.sessions[id].path, id)
    &&& post.files == pre.files.insert(pre.sessions[id].path, Seq::<u8>::empty())
}

/// A session holding write access appends a chunk to its file.
pub open spec fn step_write(pre: Model, post: Model, id: nat, chunk: Seq<u8>) -> bool {
    &&& pre.sessions.dom().contains(id)
    &&& can_write(pre.sessions[id].phase)
    &&& pre.files.dom().contains(pre.sessions[id].path)
    &&& post.sessions == pre.sessions
    &&& post.registry == pre.registry
    &&& post.files == pre.files.insert(
        pre.sessions[id].path,
        pre.files[pre.sessions[id].path] + chunk,
    )
}

/// A session ends on its own — clean end of stream or a failure — and
/// unregisters, guarded: only its own registry entry is removed.
pub open spec fn step_finish(pre: Model, post: Model, id: nat, failed: bool) -> bool {
    &&& pre.sessions.dom().contains(id)
    &&& can_write(pre.sessions[id].phase)
    &&& post.sessions == pre.sessions.insert(
        id,
        ModelSession {
            phase: if failed {
                ModelPhase::Errored
            } else {
                ModelPhase::Completed
            },
            path: pre.sessions[id].path,
        },
    )
    &&& post.registry == if pre.registry.dom().contains(pre.sessions[id].path)
        && pre.registry[pre.sessions[id].path] == id {
        pre.registry.remove(pre.sessions[id].path)
    } else {
        pre.registry
    }
    &&& post.files == pre.files
}

/// Everything the scheduler can do in one step.
pub enum Step {
    Connect { id: nat, path: Seq<u8> },
    RegisterFree { id: nat },
    RegisterPreempt { id: nat, old_session: nat },
    Confirm { id: nat },
    Admit { id: nat },
    Write { id: nat, chunk: Seq<u8> },
    Finish { id: nat, failed: bool },
}

/// The transition relation.
pub open spec fn next(pre: Model, post: Model, step: Step) -> bool {
    match step {
        Step::Connect { id, path } => step_connect(pre, post, id, path),
        Step::RegisterFree { id } => step_register_free(pre, post, id),
        Step::RegisterPreempt { id, old_session } => step_register_preempt(
            pre,
            post,
            id,
            old_session,
        ),
        Step::Confirm { id } => step_confirm(pre, post, id),
        Step::Admit { id } => step_admit(pre, post, id),
        Step::Write { id, chunk } => step_write(pre, post, id, chunk),
        Step::Finish { id, failed } => step_finish(pre, post, id, failed),
    }
}

/// The inductive invariant.
pub open spec fn inv(m: Model) -> bool {
    // A registry entry names a live streaming session bound to that path.
    &&& forall|p: Seq<u8>| #[trigger] m.registry.dom().contains(p) ==> {
        &&& m.sessions.dom().contains(m.registry[p])
        &&& m.sessions[m.registry[p]].path == p
        &&& m.sessions[m.registry[p]].phase is Streaming
    }
    // A streaming session is its path's registry entry.
    &&& forall|id: nat|
        #[trigger] m.sessions.dom().contains(id) && m.sessions[id].phase is Streaming
            ==> m.registry.dom().contains(m.sessions[id].path) && m.registry[m.sessions[id].path]
            == id
    // At most one session per path holds write access.
    &&& forall|i: nat, j: nat|
        #![trigger m.sessions.dom().contains(i), m.sessions.dom().contains(j)]
        m.sessions.dom().contains(i) && m.sessions.dom().contains(j) && can_write(
            m.sessions[i].phase,
        ) && can_write(m.sessions[j].phase) && m.sessions[i].path == m.sessions[j].path ==> i == j
    // A waiter's predecessor is another session on the same path that
    // has been signalled or is gone, and the path's slot stays empty
    // until the waiter is admitted.
    &&& forall|id: nat| #[trigger] m.sessions.dom().contains(id) ==> match waiting_on(
        m.sessions[id].phase,
    ) {
        Some(o) => {
            &&& m.sessions.dom().contains(o)
            &&& o != id
            &&& m.sessions[o].path == m.sessions[id].path
            &&& (m.sessions[o].phase is CancelPending || is_done(m.sessions[o].phase))
            &&& !m.registry.dom().contains(m.sessions[id].path)
        },
        None => true,
    }
    // At most one waiter per path.
    &&& forall|i: nat, j: nat|
        #![trigger m.sessions.dom().contains(i), m.sessions.dom().contains(j)]
        m.sessions.dom().contains(i) && m.sessions.dom().contains(j) && waiting_on(
            m.sessions[i].phase,
        ) is Some && waiting_on(m.sessions[j].phase) is Some && m.sessions[i].path
            == m.sessions[j].path ==> i == j
    // On a waiter's path, only the waiter's predecessor can write.
    &&& forall|i: nat, j: nat|
        #![trigger m.sessions.dom().contains(i), m.sessions.dom().contains(j)]
        m.sessions.dom().contains(i) && m.sessions.dom().contains(j) ==> match waiting_on(
            m.sessions[i].phase,
        ) {
            Some(o) => can_write(m.sessions[j].phase) && m.sessions[j].path == m.sessions[i].path
                ==> j == o,
            None => true,
        }
    // A signalled session has exactly its preemptor waiting on it.
    &&& forall|id: nat|
        #[trigger] m.sessions.dom().contains(id) && m.sessions[id].phase is CancelPending
            ==> exists|w: nat|
            #[trigger] m.sessions.dom().contains(w) && waiting_on(m.sessions[w].phase) == Some(id)
                && m.sessions[w].path == m.sessions[id].path
}

/// The initial state satisfies the invariant.
pub proof fn lemma_init_inv(m: Model)
    requires
        init(m),
    ensures
        inv(m),
{
}

/// Every step preserves the invariant.
pub proof fn lemma_next_preserves_inv(pre: Model, post: Model, step: Step)
    requires
        inv(pre),
        next(pre, post, step),
    ensures
        inv(post),
{
    match step {
        Step::Connect { id, path } => {
            lemma_connect_preserves(pre, post, id, path);
        },
        Step::RegisterFree { id } => {
            lemma_register_free_preserves(pre, post, id);
        },
        Step::RegisterPreempt { id, old_session } => {
            lemma_register_preempt_preserves(pre, post, id, old_session);
        },
        Step::Confirm { id } => {
            lemma_confirm_preserves(pre, post, id);
        },
        Step::Admit { id } => {
            lemma_admit_preserves(pre, post, id);
        },
        Step::Write { id, chunk } => {},
        Step::Finish { id, failed } => {
            lemma_finish_preserves(pre, post, id, failed);
        },
    }
}

proof fn lemma_cancel_witness(m: Model, x: nat) -> (w: nat)
    requires
        inv(m),
        m.sessions.dom().contains(x),
        m.sessions[x].phase is CancelPending,
    ensures
        m.sessions.dom().contains(w),
        waiting_on(m.sessions[w].phase) == Some(x),
        m.sessions[w].path == m.sessions[x].path,
{
    choose|w: nat|
        #[trigger] m.sessions.dom().contains(w) && waiting_on(m.sessions[w].phase) == Some(x)
            && m.sessions[w].path == m.sessions[x].path
}

proof fn lemma_connect_preserves(pre: Model, post: Model, id: nat, path: Seq<u8>)
    requires
        inv(pre),
        step_connect(pre, post, id, path),
    ensures
        inv(post),
{
    let s = post.sessions;
    let ps = pre.sessions;
    assert forall|p: Seq<u8>| #[trigger] post.registry.dom().contains(p) implies {
        &&& s.dom().contains(post.registry[p])
        &&& s[post.registry[p]].path == p
        &&& s[post.registry[p]].phase is Streaming
    } by {
        assert(pre.registry.dom().contains(p));
        assert(ps.dom().contains(pre.registry[p]));
    }
    assert forall|x: nat| #[trigger] s.dom().contains(x) && s[x].phase is CancelPending implies
        exists|w: nat|
        #[trigger] s.dom().contains(w) && waiting_on(s[w].phase) == Some(x) && s[w].path
            == s[x].path by {
        assert(ps.dom().contains(x) && ps[x].phase is CancelPending);
        let w = lemma_cancel_witness(pre, x);
        assert(s.dom().contains(w) && waiting_on(s[w].phase) == Some(x) && s[w].path
            == s[x].path);
    }
}

proof fn lemma_register_free_preserves(pre: Model, post: Model, id: nat)
    requires
        inv(pre),
        step_register_free(pre, post, id),
    ensures
        inv(post),
{
    let s = post.sessions;
    let ps = pre.sessions;
    let p0 = ps[id].path;
    // Registry entries still name streaming sessions with their path.
    assert forall|p: Seq<u8>| #[trigger] post.registry.dom().contains(p) implies {
        &&& s.dom().contains(post.registry[p])
        &&& s[post.registry[p]].path == p
        &&& s[post.registry[p]].phase is Streaming
    } by {
        if p != p0 {
            assert(pre.registry.dom().contains(p));
            assert(ps.dom().contains(pre.registry[p]));
            assert(ps[pre.registry[p]].phase is Streaming);
            assert(pre.registry[p] != id);
        }
    }
    // Streaming sessions are registered.
    assert forall|x: nat|
        #[trigger] s.dom().contains(x) && s[x].phase is Streaming implies post.registry.dom()
        .contains(s[x].path) && post.registry[s[x].path] == x by {
        if x != id {
            assert(ps.dom().contains(x) && ps[x].phase is Streaming);
            assert(pre.registry.dom().contains(ps[x].path) && pre.registry[ps[x].path] == x);
            assert(ps[x].path != p0);
        }
    }
    // At most one writer per path: a second writer at the fresh path
    // would have been either registered or signalled, and neither holds.
    assert forall|i: nat, j: nat|
        #![trigger s.dom().contains(i), s.dom().contains(j)]
        s.dom().contains(i) && s.dom().contains(j) && can_write(s[i].phase) && can_write(
            s[j].phase,
        ) && s[i].path == s[j].path implies i == j by {
        if i == id && j != id {
            lemma_no_other_writer_at_free_path(pre, id, j);
        } else if j == id && i != id {
            lemma_no_other_writer_at_free_path(pre, id, i);
        }
    }
    // Waiter bookkeeping.
    assert forall|x: nat| #[trigger] s.dom().contains(x) implies match waiting_on(s[x].phase) {
        Some(o) => {
            &&& s.dom().contains(o)
            &&& o != x
            &&& s[o].path == s[x].path
            &&& (s[o].phase is CancelPending || is_done(s[o].phase))
            &&& !post.registry.dom().contains(s[x].path)
        },
        None => true,
    } by {
        if x != id {
            match waiting_on(ps[x].phase) {
                Some(o) => {
                    assert(ps.dom().contains(x));
                    assert(ps.dom().contains(o));
                    assert(o != id);
                    assert(ps[x].path != p0);
                },
                None => {},
            }
        }
    }
    assert forall|x: nat| #[trigger] s.dom().contains(x) && s[x].phase is CancelPending implies
        exists|w: nat|
        #[trigger] s.dom().contains(w) && waiting_on(s[w].phase) == Some(x) && s[w].path
            == s[x].path by {
        assert(ps.dom().contains(x) && ps[x].phase is CancelPending);
        let w = lemma_cancel_witness(pre, x);
        assert(w != id);
        assert(s.dom().contains(w) && waiting_on(s[w].phase) == Some(x) && s[w].path
            == s[x].path);
    }
}

/// In a state where a path has no registry entry and no waiter, no
/// session can be writing to it.
proof fn lemma_no_other_writer_at_free_path(m: Model, id: nat, j: nat)
    requires
        inv(m),
        m.sessions.dom().contains(id),
        m.sessions.dom().contains(j),
        j != id,
        !m.registry.dom().contains(m.sessions[id].path),
        no_waiter_for(m, m.sessions[id].path),
        m.sessions[j].path == m.sessions[id].path,
    ensures
        !can_write(m.sessions[j].phase),
{
    let p0 = m.sessions[id].path;
    if m.sessions[j].phase is Streaming {
        assert(m.registry.dom().contains(p0));
    } else if m.sessions[j].phase is CancelPending {
        let w = lemma_cancel_witness(m, j);
        assert(waiting_on(m.sessions[w].phase) is None);
    }
}

proof fn lemma_register_preempt_preserves(pre: Model, post: Model, id: nat, old_id: nat)
    requires
        inv(pre),
        step_register_preempt(pre, post, id, old_id),
    ensures
        inv(post),
{
    let s = post.sessions;
    let ps = pre.sessions;
    let p0 = ps[id].path;
    assert(ps[old_id].phase is Streaming && ps[old_id].path == p0);
    assert(old_id != id);
    assert forall|p: Seq<u8>| #[trigger] post.registry.dom().contains(p) implies {
        &&& s.dom().contains(post.registry[p])
        &&& s[post.registry[p]].path == p
        &&& s[post.registry[p]].phase is Streaming
    } by {
        assert(p != p0);
        assert(pre.registry.dom().contains(p));
        let e = pre.registry[p];
        assert(ps.dom().contains(e) && ps[e].phase is Streaming && ps[e].path == p);
        assert(e != id);
        assert(e != old_id);
    }
    assert forall|x: nat|
        #[trigger] s.dom().contains(x) && s[x].phase is Streaming implies post.registry.dom()
        .contains(s[x].path) && post.registry[s[x].path] == x by {
        assert(x != id && x != old_id);
        assert(ps.dom().contains(x) && ps[x].phase is Streaming);
        assert(pre.registry.dom().contains(ps[x].path) && pre.registry[ps[x].path] == x);
        assert(ps[x].path != p0);
    }
    assert forall|i: nat, j: nat|
        #![trigger s.dom().contains(i), s.dom().contains(j)]
        s.dom().contains(i) && s.dom().contains(j) && can_write(s[i].phase) && can_write(
            s[j].phase,
        ) && s[i].path == s[j].path implies i == j by {
        assert(i != id && j != id);
        assert(ps.dom().contains(i) && ps.dom().contains(j));
        assert(can_write(ps[i].phase) && can_write(ps[j].phase));
        assert(ps[i].path == s[i].path && ps[j].path == s[j].path);
    }
    assert forall|x: nat| #[trigger] s.dom().contains(x) implies match waiting_on(s[x].phase) {
        Some(o) => {
            &&& s.dom().contains(o)
            &&& o != x
            &&& s[o].path == s[x].path
            &&& (s[o].phase is CancelPending || is_done(s[o].phase))
            &&& !post.registry.dom().contains(s[x].path)
        },
        None => true,
    } by {
        if x == id {
            assert(waiting_on(s[x].phase) == Some(old_id));
            assert(s[old_id].phase is CancelPending);
            assert(s[old_id].path == p0);
        } else if x != old_id {
            match waiting_on(ps[x].phase) {
                Some(o) => {
                    assert(ps.dom().contains(x));
                    assert(ps.dom().contains(o));
                    assert(o != id);
                    assert(o != old_id);
                    assert(ps[x].path != p0);
                },
                None => {},
            }
        }
    }
    assert forall|i: nat, j: nat|
        #![trigger s.dom().contains(i), s.dom().contains(j)]
        s.dom().contains(i) && s.dom().contains(j) && waiting_on(s[i].phase) is Some
            && waiting_on(s[j].phase) is Some && s[i].path == s[j].path implies i == j by {
        if i != id && j != id {
            assert(ps.dom().contains(i) && ps.dom().contains(j));
            assert(waiting_on(ps[i].phase) is Some && waiting_on(ps[j].phase) is Some);
        } else if i == id && j != id {
            assert(ps.dom().contains(j) && waiting_on(ps[j].phase) is Some);
            assert(s[j].path == ps[j].path);
            assert(waiting_on(ps[j].phase) is None);
        } else if j == id && i != id {
            assert(ps.dom().contains(i) && waiting_on(ps[i].phase) is Some);
            assert(s[i].path == ps[i].path);
            assert(waiting_on(ps[i].phase) is None);
        }
    }
    assert forall|i: nat, j: nat|
        #![trigger s.dom().contains(i), s.dom().contains(j)]
        s.dom().contains(i) && s.dom().contains(j) implies match waiting_on(s[i].phase) {
        Some(o) => can_write(s[j].phase) && s[j].path == s[i].path ==> j == o,
        None => true,
    } by {
        match waiting_on(s[i].phase) {
            Some(o) => {
                if can_write(s[j].phase) && s[j].path == s[i].path {
                    assert(j != id);
                    if i == id {
                        assert(o == old_id);
                        if j != old_id {
                            assert(ps.dom().contains(j) && can_write(ps[j].phase));
                            assert(ps[j].path == p0);
                            assert(ps.dom().contains(old_id) && can_write(ps[old_id].phase));
                            assert(ps[old_id].path == p0);
                        }
                    } else {
                        assert(ps.dom().contains(i) && waiting_on(ps[i].phase) == Some(o));
                        assert(ps[i].path != p0);
                        assert(j != old_id);
                        assert(ps.dom().contains(j) && can_write(ps[j].phase));
                    }
                }
            },
            None => {},
        }
    }
    assert forall|x: nat| #[trigger] s.dom().contains(x) && s[x].phase is CancelPending implies
        exists|w: nat|
        #[trigger] s.dom().contains(w) && waiting_on(s[w].phase) == Some(x) && s[w].path
            == s[x].path by {
        if x == old_id {
            assert(s.dom().contains(id) && waiting_on(s[id].phase) == Some(old_id) && s[id].path
                == s[old_id].path);
        } else {
            assert(x != id);
            assert(ps.dom().contains(x) && ps[x].phase is CancelPending);
            let w = lemma_cancel_witness(pre, x);
            assert(w != id);
            assert(w != old_id);
            assert(s.dom().contains(w) && waiting_on(s[w].phase) == Some(x) && s[w].path
                == s[x].path);
        }
    }
}

proof fn lemma_confirm_preserves(pre: Model, post: Model, id: nat)
    requires
        inv(pre),
        step_confirm(pre, post, id),
    ensures
        inv(post),
{
    let s = post.sessions;
    let ps = pre.sessions;
    assert forall|p: Seq<u8>| #[trigger] post.registry.dom().contains(p) implies {
        &&& s.dom().contains(post.registry[p])
        &&& s[post.registry[p]].path == p
        &&& s[post.registry[p]].phase is Streaming
    } by {
        assert(pre.registry.dom().contains(p));
        assert(ps.dom().contains(pre.registry[p]) && ps[pre.registry[p]].phase is Streaming);
        assert(pre.registry[p] != id);
    }
    assert forall|x: nat| #[trigger] s.dom().contains(x) implies match waiting_on(s[x].phase) {
        Some(o) => {
            &&& s.dom().contains(o)
            &&& o != x
            &&& s[o].path == s[x].path
            &&& (s[o].phase is CancelPending || is_done(s[o].phase))
            &&& !post.registry.dom().contains(s[x].path)
        },
        None => true,
    } by {
        if x != id {
            match waiting_on(ps[x].phase) {
                Some(o) => {
                    assert(ps.dom().contains(x));
                    assert(ps.dom().contains(o));
                },
                None => {},
            }
        }
    }
    assert forall|x: nat| #[trigger] s.dom().contains(x) && s[x].phase is CancelPending implies
        exists|w: nat|
        #[trigger] s.dom().contains(w) && waiting_on(s[w].phase) == Some(x) && s[w].path
            == s[x].path by {
        assert(x != id);
        assert(ps.dom().contains(x) && ps[x].phase is CancelPending);
        let w = lemma_cancel_witness(pre, x);
        assert(w != id);
        assert(s.dom().contains(w) && waiting_on(s[w].phase) == Some(x) && s[w].path
            == s[x].path);
    }
}

proof fn lemma_admit_preserves(pre: Model, post: Model, id: nat)
    requires
        inv(pre),
        step_admit(pre, post, id),
    ensures
        inv(post),
{
    let s = post.sessions;
    let ps = pre.sessions;
    let p0 = ps[id].path;
    let o0 = match waiting_on(ps[id].phase) {
        Some(o) => o,
        None => 0nat,
    };
    assert(waiting_on(ps[id].phase) == Some(o0));
    assert(ps.dom().contains(o0) && is_done(ps[o0].phase));
    assert(ps[o0].path == p0 && o0 != id);
    assert(!pre.registry.dom().contains(p0));
    assert forall|p: Seq<u8>| #[trigger] post.registry.dom().contains(p) implies {
        &&& s.dom().contains(post.registry[p])
        &&& s[post.registry[p]].path == p
        &&& s[post.registry[p]].phase is Streaming
    } by {
        if p != p0 {
            assert(pre.registry.dom().contains(p));
            assert(ps.dom().contains(pre.registry[p]) && ps[pre.registry[p]].phase
                is Streaming);
            assert(pre.registry[p] != id);
        }
    }
    assert forall|x: nat|
        #[trigger] s.dom().contains(x) && s[x].phase is Streaming implies post.registry.dom()
        .contains(s[x].path) && post.registry[s[x].path] == x by {
        if x != id {
            assert(ps.dom().contains(x) && ps[x].phase is Streaming);
            assert(pre.registry.dom().contains(ps[x].path) && pre.registry[ps[x].path] == x);
            assert(ps[x].path != p0);
        }
    }
    assert forall|i: nat, j: nat|
        #![trigger s.dom().contains(i), s.dom().contains(j)]
        s.dom().contains(i) && s.dom().contains(j) && can_write(s[i].phase) && can_write(
            s[j].phase,
        ) && s[i].path == s[j].path implies i == j by {
        if i == id && j != id {
            lemma_no_writer_on_waited_path(pre, id, o0, j);
        } else if j == id && i != id {
            lemma_no_writer_on_waited_path(pre, id, o0, i);
        }
    }
    assert forall|x: nat| #[trigger] s.dom().contains(x) implies match waiting_on(s[x].phase) {
        Some(o) => {
            &&& s.dom().contains(o)
            &&& o != x
            &&& s[o].path == s[x].path
            &&& (s[o].phase is CancelPending || is_done(s[o].phase))
            &&& !post.registry.dom().contains(s[x].path)
        },
        None => true,
    } by {
        if x != id {
            match waiting_on(ps[x].phase) {
                Some(o) => {
                    assert(ps.dom().contains(x));
                    assert(ps.dom().contains(o));
                    assert(o != id);
                    // Two waiters on one path would be the same session.
                    assert(ps[x].path != p0);
                },
                None => {},
            }
        }
    }
    assert forall|x: nat| #[trigger] s.dom().contains(x) && s[x].phase is CancelPending implies
        exists|w: nat|
        #[trigger] s.dom().contains(w) && waiting_on(s[w].phase) == Some(x) && s[w].path
            == s[x].path by {
        assert(x != id);
        assert(ps.dom().contains(x) && ps[x].phase is CancelPending);
        let w = lemma_cancel_witness(pre, x);
        assert(w != id);
        assert(s.dom().contains(w) && waiting_on(s[w].phase) == Some(x) && s[w].path
            == s[x].path);
    }
}

/// While a session waits on its predecessor, no third session can be
/// writing to the contested path.
proof fn lemma_no_writer_on_waited_path(m: Model, id: nat, o0: nat, j: nat)
    requires
        inv(m),
        m.sessions.dom().contains(id),
        waiting_on(m.sessions[id].phase) == Some(o0),
        m.sessions.dom().contains(o0),
        is_done(m.sessions[o0].phase),
        m.sessions.dom().contains(j),
        j != id,
        m.sessions[j].path == m.sessions[id].path,
    ensures
        !can_write(m.sessions[j].phase),
{
    if can_write(m.sessions[j].phase) {
        assert(j == o0);
    }
}

proof fn lemma_finish_preserves(pre: Model, post: Model, id: nat, failed: bool)
    requires
        inv(pre),
        step_finish(pre, post, id, failed),
    ensures
        inv(post),
{
    let s = post.sessions;
    let ps = pre.sessions;
    let p0 = ps[id].path;
    assert forall|p: Seq<u8>| #[trigger] post.registry.dom().contains(p) implies {
        &&& s.dom().contains(post.registry[p])
        &&& s[post.registry[p]].path == p
        &&& s[post.registry[p]].phase is Streaming
    } by {
        assert(pre.registry.dom().contains(p));
        let e = pre.registry[p];
        assert(ps.dom().contains(e) && ps[e].phase is Streaming && ps[e].path == p);
        if e == id {
            assert(p == p0);
            assert(pre.registry[p0] == id);
            assert(!post.registry.dom().contains(p));
        }
    }
    assert forall|x: nat|
        #[trigger] s.dom().contains(x) && s[x].phase is Streaming implies post.registry.dom()
        .contains(s[x].path) && post.registry[s[x].path] == x by {
        assert(x != id);
        assert(ps.dom().contains(x) && ps[x].phase is Streaming);
        assert(pre.registry.dom().contains(ps[x].path) && pre.registry[ps[x].path] == x);
        if pre.registry.dom().contains(p0) && pre.registry[p0] == id {
            assert(ps[x].path != p0);
        }
    }
    assert forall|x: nat| #[trigger] s.dom().contains(x) implies match waiting_on(s[x].phase) {
        Some(o) => {
            &&& s.dom().contains(o)
            &&& o != x
            &&& s[o].path == s[x].path
            &&& (s[o].phase is CancelPending || is_done(s[o].phase))
            &&& !post.registry.dom().contains(s[x].path)
        },
        None => true,
    } by {
        if x != id {
            match waiting_on(ps[x].phase) {
                Some(o) => {
                    assert(ps.dom().contains(x));
                    assert(ps.dom().contains(o));
                },
                None => {},
            }
        }
    }
    assert forall|x: nat| #[trigger] s.dom().contains(x) && s[x].phase is CancelPending implies
        exists|w: nat|
        #[trigger] s.dom().contains(w) && waiting_on(s[w].phase) == Some(x) && s[w].path
            == s[x].path by {
        assert(x != id);
        assert(ps.dom().contains(x) && ps[x].phase is CancelPending);
        let w = lemma_cancel_witness(pre, x);
        assert(w != id);
        assert(s.dom().contains(w) && waiting_on(s[w].phase) == Some(x) && s[w].path
            == s[x].path);
    }
}

/// At most one session can be writing to a path at any reachable
/// instant; with the registry a map, the table itself holds at most
/// one entry per path by construction.
pub proof fn lemma_at_most_one_writer(m: Model, i: nat, j: nat)
    requires
        inv(m),
        m.sessions.dom().contains(i),
        m.sessions.dom().contains(j),
        can_write(m.sessions[i].phase),
        can_write(m.sessions[j].phase),
        m.sessions[i].path == m.sessions[j].path,
    ensures
        i == j,
{
}

/// Whichever way a session is admitted — a free path or a preempted
/// one — its destination file is opened fresh at that instant: stale
/// content from any earlier transfer is gone before its first chunk
/// is appended.
pub proof fn lemma_admission_clears_file(pre: Model, post: Model, id: nat)
    requires
        step_register_free(pre, post, id) || step_admit(pre, post, id),
    ensures
        post.files[pre.sessions[id].path] == Seq::<u8>::empty(),
{
}

/// A finished session is finished for good and never writes again: no
/// step moves it out of a terminal phase, and no write step of its is
/// enabled.
pub proof fn lemma_done_is_forever(pre: Model, post: Model, step: Step, id: nat)
    requires
        inv(pre),
        next(pre, post, step),
        pre.sessions.dom().contains(id),
        is_done(pre.sessions[id].phase),
    ensures
        post.sessions.dom().contains(id),
        post.sessions[id] == pre.sessions[id],
        forall|p2: Model, chunk: Seq<u8>| !step_write(pre, p2, id, chunk),
{
}

/// The map a registry table stands for: each occupied path bound to
/// its session's handle.
pub open spec fn table_abstraction(r: &Registry) -> Map<Seq<u8>, nat> {
    Map::new(
        |p: Seq<u8>| r.occupant(p) is Some,
        |p: Seq<u8>| r.occupant(p).unwrap() as nat,
    )
}

/// The table's `register` operation realizes the model's admission:
/// afterwards the abstract map is the old one with the path bound to
/// the new session.
pub proof fn lemma_register_refines_model(old_r: &Registry, new_r: &Registry, path: Seq<u8>, id: u64)
    requires
        new_r.occupant(path) == Some(id),
        forall|q: Seq<u8>| q != path ==> new_r.occupant(q) == old_r.occupant(q),
    ensures
        table_abstraction(new_r) == table_abstraction(old_r).insert(path, id as nat),
{
    assert(table_abstraction(new_r) =~= table_abstraction(old_r).insert(path, id as nat));
}

/// The table's guarded removal realizes the model's cleanup: when the
/// departing session was the occupant, the abstract map loses exactly
/// its binding; otherwise it is untouched.
pub proof fn lemma_unregister_refines_model(
    old_r: &Registry,
    new_r: &Registry,
    path: Seq<u8>,
    removed: bool,
)
    requires
        removed ==> new_r.occupant(path) is None,
        !removed ==> new_r.occupant(path) == old_r.occupant(path),
        forall|q: Seq<u8>| q != path ==> new_r.occupant(q) == old_r.occupant(q),
    ensures
        removed ==> table_abstraction(new_r) == table_abstraction(old_r).remove(path),
        !removed ==> table_abstraction(new_r) == table_abstraction(old_r),
{
    if removed {
        assert(table_abstraction(new_r) =~= table_abstraction(old_r).remove(path));
    } else {
        assert(table_abstraction(new_r) =~= table_abstraction(old_r));
    }
}

/// When a preempted registration returns and the new session is
/// admitted, its predecessor has already stopped for good: it is in a
/// terminal phase and can never write again. A new session's first
/// write therefore never interleaves with the old session's writes.
pub proof fn lemma_preemption_ordering(pre: Model, post: Model, id: nat, old_id: nat)
    requires
        inv(pre),
        step_admit(pre, post, id),
        waiting_on(pre.sessions[id].phase) == Some(old_id),
    ensures
        is_done(post.sessions[old_id].phase),
        forall|p2: Model, chunk: Seq<u8>| !step_write(post, p2, old_id, chunk),
{
    assert(pre.sessions.dom().contains(id));
    assert(is_done(pre.sessions[old_id].phase));
    assert(old_id != id);
    assert(post.sessions[old_id] == pre.sessions[old_id]);
}

} // verus!
