//! The admission registry: a table from destination path to the
//! cancellation handle of the session currently allowed to write there.
//! At most one entry per path exists at any instant; registering over
//! an occupied path removes the old entry and hands its handle back so
//! the caller can signal the old session and await its relinquish
//! confirmation before the new session writes.

use vstd::prelude::*;

verus! {

/// Pairwise-distinct paths: the table holds at most one entry per path.
pub open spec fn unique_paths(s: Seq<(Vec<u8>, u64)>) -> bool {
    forall|i: int, j: int|
        0 <= i < j < s.len() ==> s[i].0@ != s[j].0@
}

/// True when some entry carries the path.
pub open spec fn has_path(s: Seq<(Vec<u8>, u64)>, p: Seq<u8>) -> bool {
    exists|i: int| 0 <= i < s.len() && s[i].0@ == p
}

/// The handle stored for a path, if any entry carries it.
pub open spec fn path_value(s: Seq<(Vec<u8>, u64)>, p: Seq<u8>) -> Option<u64> {
    if has_path(s, p) {
        let i = choose|i: int| 0 <= i < s.len() && s[i].0@ == p;
        Some(s[i].1)
    } else {
        None
    }
}

proof fn lemma_path_value_at(s: Seq<(Vec<u8>, u64)>, p: Seq<u8>, k: int)
    requires
        unique_paths(s),
        0 <= k < s.len(),
        s[k].0@ == p,
    ensures
        path_value(s, p) == Some(s[k].1),
{
    assert(has_path(s, p));
    let i = choose|i: int| 0 <= i < s.len() && s[i].0@ == p;
    if i < k {
        assert(s[i].0@ != s[k].0@);
    } else if k < i {
        assert(s[k].0@ != s[i].0@);
    }
}

proof fn lemma_path_value_none(s: Seq<(Vec<u8>, u64)>, p: Seq<u8>)
    requires
        forall|i: int| 0 <= i < s.len() ==> s[i].0@ != p,
    ensures
        path_value(s, p) is None,
{
}

/// Removing the entry at one index keeps every other path's value.
proof fn lemma_remove_other(s: Seq<(Vec<u8>, u64)>, k: int, q: Seq<u8>)
    requires
        unique_paths(s),
        0 <= k < s.len(),
        s[k].0@ != q,
    ensures
        unique_paths(s.remove(k)),
        path_value(s.remove(k), q) == path_value(s, q),
{
    let t = s.remove(k);
    assert forall|i: int, j: int| 0 <= i < j < t.len() implies t[i].0@ != t[j].0@ by {
        let si = if i < k {
            i
        } else {
            i + 1
        };
        let sj = if j < k {
            j
        } else {
            j + 1
        };
        assert(t[i] == s[si] && t[j] == s[sj]);
    }
    if has_path(t, q) {
        let i = choose|i: int| 0 <= i < t.len() && t[i].0@ == q;
        let si = if i < k {
            i
        } else {
            i + 1
        };
        assert(t[i] == s[si]);
        lemma_path_value_at(s, q, si);
        lemma_path_value_at(t, q, i);
    } else {
        assert forall|i: int| 0 <= i < s.len() implies s[i].0@ != q by {
            if i != k {
                let ti = if i < k {
                    i
                } else {
                    i - 1
                };
                assert(t[ti] == s[i]);
            }
        }
        lemma_path_value_none(s, q);
        lemma_path_value_none(t, q);
    }
}

/// Removing an entry leaves its own path unoccupied.
proof fn lemma_remove_own(s: Seq<(Vec<u8>, u64)>, k: int)
    requires
        unique_paths(s),
        0 <= k < s.len(),
    ensures
        unique_paths(s.remove(k)),
        forall|i: int| 0 <= i < s.remove(k).len() ==> s.remove(k)[i].0@ != s[k].0@,
{
    let t = s.remove(k);
    assert forall|i: int, j: int| 0 <= i < j < t.len() implies t[i].0@ != t[j].0@ by {
        let si = if i < k {
            i
        } else {
            i + 1
        };
        let sj = if j < k {
            j
        } else {
            j + 1
        };
        assert(t[i] == s[si] && t[j] == s[sj]);
    }
    assert forall|i: int| 0 <= i < t.len() implies t[i].0@ != s[k].0@ by {
        let si = if i < k {
            i
        } else {
            i + 1
        };
        assert(t[i] == s[si]);
        if si < k {
            assert(s[si].0@ != s[k].0@);
        } else {
            assert(s[k].0@ != s[si].0@);
        }
    }
}

/// Appending an entry with a fresh path keeps the table's invariant
/// and every other path's value.
proof fn lemma_push_fresh(s: Seq<(Vec<u8>, u64)>, e: (Vec<u8>, u64), q: Seq<u8>)
    requires
        unique_paths(s),
        forall|i: int| 0 <= i < s.len() ==> s[i].0@ != e.0@,
    ensures
        unique_paths(s.push(e)),
        path_value(s.push(e), e.0@) == Some(e.1),
        q != e.0@ ==> path_value(s.push(e), q) == path_value(s, q),
{
    let t = s.push(e);
    assert forall|i: int, j: int| 0 <= i < j < t.len() implies t[i].0@ != t[j].0@ by {
        if j < t.len() - 1 {
            assert(t[i] == s[i] && t[j] == s[j]);
        } else {
            assert(t[i] == s[i] && t[j] == e);
        }
    }
    lemma_path_value_at(t, e.0@, t.len() - 1);
    if q != e.0@ {
        if has_path(s, q) {
            let i = choose|i: int| 0 <= i < s.len() && s[i].0@ == q;
            lemma_path_value_at(s, q, i);
            lemma_path_value_at(t, q, i);
        } else {
            assert forall|i: int| 0 <= i < t.len() implies t[i].0@ != q by {
                if i < t.len() - 1 {
                    assert(t[i] == s[i]);
                }
            }
            lemma_path_value_none(s, q);
            lemma_path_value_none(t, q);
        }
    }
}

/// The admission table. Shared, mutually-exclusive state in the running
/// service: the service constructs one and serializes all three
/// operations on it.
pub struct Registry {
    entries: Vec<(Vec<u8>, u64)>,
}

impl Registry {
    /// The entries as a mathematical sequence.
    pub closed spec fn entries_seq(&self) -> Seq<(Vec<u8>, u64)> {
        self.entries@
    }

    /// Well-formed: at most one entry per destination path.
    pub open spec fn wf(&self) -> bool {
        unique_paths(self.entries_seq())
    }

    /// The cancellation handle admitted for a path, if any.
    pub open spec fn occupant(&self, p: Seq<u8>) -> Option<u64> {
        path_value(self.entries_seq(), p)
    }

    /// An empty registry.
    pub fn new() -> (r: Registry)
        ensures
            r.wf(),
            forall|p: Seq<u8>| r.occupant(p) is None,
            r.entries_seq().len() == 0,
    {
        let r = Registry { entries: Vec::new() };
        proof {
            assert forall|p: Seq<u8>| r.occupant(p) is None by {
                lemma_path_value_none(r.entries_seq(), p);
            }
        }
        r
    }

    /// Two entries carrying the same path are the same entry: the
    /// at-most-one-writer table invariant.
    pub proof fn lemma_at_most_one_entry(&self, p: Seq<u8>, i: int, j: int)
        requires
            self.wf(),
            0 <= i < self.entries_seq().len(),
            0 <= j < self.entries_seq().len(),
            self.entries_seq()[i].0@ == p,
            self.entries_seq()[j].0@ == p,
        ensures
            i == j,
    {
        if i < j {
            assert(self.entries_seq()[i].0@ != self.entries_seq()[j].0@);
        } else if j < i {
            assert(self.entries_seq()[j].0@ != self.entries_seq()[i].0@);
        }
    }

    /// The handle registered for a path, if any.
    pub fn lookup(&self, path: &Vec<u8>) -> (r: Option<u64>)
        requires
            self.wf(),
        ensures
            r == self.occupant(path@),
    {
        let n = self.entries.len();
        let mut i: usize = 0;
        while i < n
            invariant
                self.wf(),
                n == self.entries_seq().len(),
                i <= n,
                forall|j: int| 0 <= j < i ==> self.entries_seq()[j].0@ != path@,
            decreases n - i,
        {
            let e = &self.entries[i];
            if crate::bytes_eq(&e.0, path) {
                proof {
                    lemma_path_value_at(self.entries_seq(), path@, i as int);
                }
                return Some(e.1);
            }
            i = i + 1;
        }
        proof {
            lemma_path_value_none(self.entries_seq(), path@);
        }
        None
    }

    /// Admits a session: any old entry for the path is removed and its
    /// handle returned, and the new session becomes the path's sole
    /// occupant. The caller must deliver the cancellation signal to a
    /// returned handle and await the relinquish confirmation before the
    /// new session writes.
    pub fn register(&mut self, path: Vec<u8>, id: u64) -> (preempted: Option<u64>)
        requires
            old(self).wf(),
        ensures
            final(self).wf(),
            final(self).occupant(path@) == Some(id),
            forall|q: Seq<u8>| q != path@ ==> final(self).occupant(q) == old(self).occupant(q),
            preempted == old(self).occupant(path@),
    {
        let preempted = self.take_entry(&path);
        let ghost mid = self.entries@;
        proof {
            lemma_push_fresh(mid, (path, id), path@);
            assert forall|q: Seq<u8>| q != path@ implies path_value(mid.push((path, id)), q)
                == old(self).occupant(q) by {
                lemma_push_fresh(mid, (path, id), q);
            }
        }
        self.entries.push((path, id));
        preempted
    }

    /// Atomically removes the entry for a path, handing back the
    /// removed session's cancellation handle if one was present. The
    /// caller signals that handle and blocks until the old session
    /// confirms it has relinquished (an already-exited session counts
    /// as relinquished).
    pub fn preempt(&mut self, path: &Vec<u8>) -> (r: Option<u64>)
        requires
            old(self).wf(),
        ensures
            final(self).wf(),
            final(self).occupant(path@) is None,
            forall|q: Seq<u8>| q != path@ ==> final(self).occupant(q) == old(self).occupant(q),
            r == old(self).occupant(path@),
    {
        let r = self.take_entry(path);
        proof {
            lemma_path_value_none(self.entries@, path@);
        }
        r
    }

    /// Removes the path's entry only if the departing session is still
    /// its occupant: a session preempted earlier must not remove the
    /// newer session's entry on its own exit.
    pub fn unregister(&mut self, path: &Vec<u8>, id: u64) -> (removed: bool)
        requires
            old(self).wf(),
        ensures
            final(self).wf(),
            removed == (old(self).occupant(path@) == Some(id)),
            removed ==> final(self).occupant(path@) is None,
            !removed ==> *final(self) == *old(self),
            forall|q: Seq<u8>| q != path@ ==> final(self).occupant(q) == old(self).occupant(q),
    {
        let n = self.entries.len();
        let mut i: usize = 0;
        while i < n
            invariant
                old(self).wf(),
                *self == *old(self),
                n == self.entries_seq().len(),
                i <= n,
                forall|j: int| 0 <= j < i ==> self.entries_seq()[j].0@ != path@,
            decreases n - i,
        {
            let matches_path = crate::bytes_eq(&self.entries[i].0, path);
            if matches_path {
                proof {
                    lemma_path_value_at(self.entries@, path@, i as int);
                }
                if self.entries[i].1 == id {
                    let ghost s = self.entries@;
                    proof {
                        lemma_remove_own(s, i as int);
                        assert forall|q: Seq<u8>| q != path@ implies path_value(
                            s.remove(i as int),
                            q,
                        ) == path_value(s, q) by {
                            lemma_remove_other(s, i as int, q);
                        }
                    }
                    let _ = self.entries.remove(i);
                    proof {
                        lemma_path_value_none(self.entries@, path@);
                    }
                    return true;
                } else {
                    return false;
                }
            }
            i = i + 1;
        }
        proof {
            lemma_path_value_none(self.entries@, path@);
        }
        false
    }

    /// Removes the path's entry unconditionally, returning its handle.
    fn take_entry(&mut self, path: &Vec<u8>) -> (r: Option<u64>)
        requires
            old(self).wf(),
        ensures
            final(self).wf(),
            forall|i: int|
                0 <= i < final(self).entries_seq().len() ==> final(self).entries_seq()[i].0@
                    != path@,
            forall|q: Seq<u8>| q != path@ ==> final(self).occupant(q) == old(self).occupant(q),
            r == old(self).occupant(path@),
    {
        let n = self.entries.len();
        let mut i: usize = 0;
        while i < n
            invariant
                old(self).wf(),
                *self == *old(self),
                n == self.entries_seq().len(),
                i <= n,
                forall|j: int| 0 <= j < i ==> self.entries_seq()[j].0@ != path@,
            decreases n - i,
        {
            let matches_path = crate::bytes_eq(&self.entries[i].0, path);
            if matches_path {
                proof {
                    lemma_path_value_at(self.entries@, path@, i as int);
                    lemma_remove_own(self.entries@, i as int);
                    assert forall|q: Seq<u8>| q != path@ implies path_value(
                        self.entries@.remove(i as int),
                        q,
                    ) == path_value(self.entries@, q) by {
                        lemma_remove_other(self.entries@, i as int, q);
                    }
                }
                let e = self.entries.remove(i);
                return Some(e.1);
            }
            i = i + 1;
        }
        proof {
            lemma_path_value_none(self.entries@, path@);
        }
        None
    }
}

} // verus!
