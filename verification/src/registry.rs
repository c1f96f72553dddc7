//! The session registry: maps live session ids to their handles and
//! serializes all structural changes.
//!
//! The registry is generic in the handle type `H` — the embedding
//! application keeps its PTY writer, controlling-side handle, child-process
//! handle and reader-task handle in it. The registry decides which handles
//! exist under which id; the application performs the blocking I/O on them,
//! never under the registry's own lock.

use vstd::prelude::*;

use crate::errors::PtyError;
use crate::ids::SessionIdAllocator;

verus! {

/// The largest single write payload accepted, in bytes.
pub const MAX_WRITE_SIZE: usize = 1048576;

/// The mapping denoted by a list of sessions, later entries overriding
/// earlier ones (live lists keep their ids unique, so nothing is ever
/// actually overridden).
pub open spec fn session_map<H>(s: Seq<(u64, H)>) -> Map<u64, H>
    decreases s.len(),
{
    if s.len() == 0 {
        Map::empty()
    } else {
        session_map(s.drop_last()).insert(s.last().0, s.last().1)
    }
}

/// No two entries of `s` share an id.
pub open spec fn session_ids_unique<H>(s: Seq<(u64, H)>) -> bool {
    forall|i: int, j: int| 0 <= i < j < s.len() ==> (#[trigger] s[i]).0 != (#[trigger] s[j]).0
}

/// If no entry of `s` has id `id`, the denoted map has no entry at `id`.
pub proof fn lemma_session_map_absent<H>(s: Seq<(u64, H)>, id: u64)
    requires
        forall|i: int| 0 <= i < s.len() ==> (#[trigger] s[i]).0 != id,
    ensures
        !session_map(s).dom().contains(id),
    decreases s.len(),
{
    if s.len() > 0 {
        lemma_session_map_absent(s.drop_last(), id);
    }
}

/// If ids are unique and entry `i` has id `id`, the denoted map takes entry
/// `i`'s handle at `id`.
pub proof fn lemma_session_map_at<H>(s: Seq<(u64, H)>, i: int)
    requires
        session_ids_unique(s),
        0 <= i < s.len(),
    ensures
        session_map(s).dom().contains(s[i].0),
        session_map(s)[s[i].0] == s[i].1,
    decreases s.len(),
{
    if i < s.len() - 1 {
        lemma_session_map_at(s.drop_last(), i);
    }
}

/// Removing the unique entry with id `id` from the list removes `id` from
/// the denoted map.
proof fn lemma_session_map_remove<H>(s: Seq<(u64, H)>, i: int)
    requires
        session_ids_unique(s),
        0 <= i < s.len(),
    ensures
        session_map(s.remove(i)) == session_map(s).remove(s[i].0),
    decreases s.len(),
{
    let id = s[i].0;
    if i == s.len() - 1 {
        assert(s.remove(i) =~= s.drop_last());
        lemma_session_map_absent(s.drop_last(), id);
        assert(session_map(s.drop_last()) =~= session_map(s).remove(id));
    } else {
        lemma_session_map_remove(s.drop_last(), i);
        assert(s.remove(i).drop_last() =~= s.drop_last().remove(i));
        assert(s.remove(i).last() == s.last());
        assert(id != s.last().0);
        assert(session_map(s.drop_last()).remove(id).insert(s.last().0, s.last().1)
            =~= session_map(s.drop_last()).insert(s.last().0, s.last().1).remove(id));
    }
}

/// Checks a requested terminal size: both dimensions must be non-zero.
pub fn validate_size(cols: u16, rows: u16) -> (r: Result<(), PtyError>)
    ensures
        r is Ok <==> (cols != 0 && rows != 0),
        r is Err ==> r->Err_0 is InvalidArgument,
{
    if cols == 0 || rows == 0 {
        Err(PtyError::InvalidArgument)
    } else {
        Ok(())
    }
}

/// Checks a single write payload against the maximum accepted size.
pub fn validate_write_len(len: usize) -> (r: Result<(), PtyError>)
    ensures
        r is Ok <==> len <= MAX_WRITE_SIZE,
        r is Err ==> r->Err_0 is InvalidArgument,
{
    if len > MAX_WRITE_SIZE {
        Err(PtyError::InvalidArgument)
    } else {
        Ok(())
    }
}

/// The registry of live sessions: id → handle, together with the id
/// allocator. Viewed as a `Map<u64, H>`.
#[verifier::reject_recursive_types(H)]
pub struct SessionRegistry<H> {
    /// The id source; owned by the registry so every spawned session draws
    /// from the same counter.
    pub allocator: SessionIdAllocator,
    /// The live sessions, in registration order.
    pub sessions: Vec<(u64, H)>,
}

impl<H> View for SessionRegistry<H> {
    type V = Map<u64, H>;

    open spec fn view(&self) -> Map<u64, H> {
        session_map(self.sessions@)
    }
}

impl<H> SessionRegistry<H> {
    /// Live ids are pairwise distinct and never `0`: no two live sessions
    /// ever share an id, and the "all sessions" sentinel is never live.
    pub open spec fn wf(&self) -> bool {
        &&& session_ids_unique(self.sessions@)
        &&& forall|i: int| 0 <= i < self.sessions@.len() ==> (#[trigger] self.sessions@[i]).0 != 0
    }

    /// Every live id was issued by the allocator: none exceeds its counter.
    /// This holds from creation on, until the 64-bit counter wraps.
    pub open spec fn fresh_ids(&self) -> bool {
        forall|i: int|
            0 <= i < self.sessions@.len() ==> (#[trigger] self.sessions@[i]).0
                <= self.allocator.last
    }

    /// An empty registry.
    pub fn new() -> (r: SessionRegistry<H>)
        ensures
            r.wf(),
            r.fresh_ids(),
            r@ == Map::<u64, H>::empty(),
            r.allocator.last == 0,
    {
        SessionRegistry { allocator: SessionIdAllocator::new(), sessions: Vec::new() }
    }

    /// How many sessions are live.
    pub fn len(&self) -> (n: usize)
        ensures
            n == self.sessions@.len(),
    {
        self.sessions.len()
    }

    /// Registers a handle under a freshly allocated id and returns the id.
    ///
    /// Until the id counter wraps (after 2^64 - 1 allocations), the id is
    /// fresh: it displaces nothing and the second component is `None`. If an
    /// id were ever reissued after wraparound, the displaced handle is
    /// returned so the caller can tear it down.
    pub fn register(&mut self, h: H) -> (r: (u64, Option<H>))
        requires
            old(self).wf(),
        ensures
            final(self).wf(),
            r.0 != 0,
            final(self)@ == old(self)@.insert(r.0, h),
            match r.1 {
                Some(prev) => old(self)@.dom().contains(r.0) && prev == old(self)@[r.0],
                None => !old(self)@.dom().contains(r.0),
            },
            old(self).fresh_ids() && old(self).allocator.last < u64::MAX ==> (r.1 is None && !old(
                self,
            )@.dom().contains(r.0) && final(self).fresh_ids()),
    {
        let id = self.allocator.allocate();
        let ghost s0 = self.sessions@;
        let n = self.sessions.len();
        let mut i: usize = 0;
        #[verifier::loop_isolation(false)]
        while i < n
            invariant
                n == self.sessions@.len(),
                0 <= i <= n,
                self.sessions@ == s0,
                self.allocator.last == id,
                forall|j: int| 0 <= j < i ==> (#[trigger] s0[j]).0 != id,
            decreases n - i,
        {
            if self.sessions[i].0 == id {
                proof {
                    lemma_session_map_remove(s0, i as int);
                    lemma_session_map_at(s0, i as int);
                }
                let ghost ii = i as int;
                let prev = self.sessions.remove(i);
                self.sessions.push((id, h));
                proof {
                    assert(self.sessions@.drop_last() =~= s0.remove(ii));
                    assert(session_map(self.sessions@) =~= session_map(s0).insert(id, h));
                    let m = self.sessions@.len() as int;
                    assert forall|a: int, b: int|
                        0 <= a < b < m implies (#[trigger] self.sessions@[a]).0
                        != (#[trigger] self.sessions@[b]).0 by {
                        let a0 = if a < ii {
                            a
                        } else {
                            a + 1
                        };
                        assert(self.sessions@[a] == s0[a0]);
                        if b == m - 1 {
                            if a0 < ii {
                                assert(s0[a0].0 != s0[ii].0);
                            } else {
                                assert(s0[ii].0 != s0[a0].0);
                            }
                        } else {
                            let b0 = if b < ii {
                                b
                            } else {
                                b + 1
                            };
                            assert(self.sessions@[b] == s0[b0]);
                            assert(s0[a0].0 != s0[b0].0);
                        }
                    }
                }
                return (id, Some(prev.1));
            }
            i = i + 1;
        }
        proof {
            lemma_session_map_absent(s0, id);
        }
        self.sessions.push((id, h));
        proof {
            assert(self.sessions@.drop_last() =~= s0);
        }
        (id, None)
    }

    /// Whether `id` is live.
    pub fn contains(&self, id: u64) -> (r: bool)
        requires
            self.wf(),
        ensures
            r == self@.dom().contains(id),
    {
        let n = self.sessions.len();
        let mut i: usize = 0;
        while i < n
            invariant
                n == self.sessions@.len(),
                0 <= i <= n,
                self.wf(),
                forall|j: int| 0 <= j < i ==> (#[trigger] self.sessions@[j]).0 != id,
            decreases n - i,
        {
            if self.sessions[i].0 == id {
                proof {
                    lemma_session_map_at(self.sessions@, i as int);
                }
                return true;
            }
            i = i + 1;
        }
        proof {
            lemma_session_map_absent(self.sessions@, id);
        }
        false
    }

    /// The handle of the live session `id`, for an I/O operation such as
    /// write or resize; `ResourceNotFound` when `id` is not live — in
    /// particular, always after `id` has been killed.
    pub fn lookup(&self, id: u64) -> (r: Result<&H, PtyError>)
        requires
            self.wf(),
        ensures
            match r {
                Ok(h) => self@.dom().contains(id) && *h == self@[id],
                Err(e) => !self@.dom().contains(id) && e is ResourceNotFound,
            },
    {
        let n = self.sessions.len();
        let mut i: usize = 0;
        while i < n
            invariant
                n == self.sessions@.len(),
                0 <= i <= n,
                self.wf(),
                forall|j: int| 0 <= j < i ==> (#[trigger] self.sessions@[j]).0 != id,
            decreases n - i,
        {
            if self.sessions[i].0 == id {
                proof {
                    lemma_session_map_at(self.sessions@, i as int);
                }
                return Ok(&self.sessions[i].1);
            }
            i = i + 1;
        }
        proof {
            lemma_session_map_absent(self.sessions@, id);
        }
        Err(PtyError::ResourceNotFound)
    }

    /// Removes session `id` and hands its handle back for teardown; a no-op
    /// returning `None` when `id` is not live.
    pub fn remove(&mut self, id: u64) -> (r: Option<H>)
        requires
            old(self).wf(),
        ensures
            final(self).wf(),
            final(self)@ == old(self)@.remove(id),
            final(self).allocator == old(self).allocator,
            old(self).fresh_ids() ==> final(self).fresh_ids(),
            match r {
                Some(h) => old(self)@.dom().contains(id) && h == old(self)@[id],
                None => !old(self)@.dom().contains(id),
            },
    {
        let ghost s0 = self.sessions@;
        let n = self.sessions.len();
        let mut i: usize = 0;
        #[verifier::loop_isolation(false)]
        while i < n
            invariant
                n == self.sessions@.len(),
                0 <= i <= n,
                self.sessions@ == s0,
                self.allocator == old(self).allocator,
                forall|j: int| 0 <= j < i ==> (#[trigger] s0[j]).0 != id,
            decreases n - i,
        {
            if self.sessions[i].0 == id {
                proof {
                    lemma_session_map_remove(s0, i as int);
                    lemma_session_map_at(s0, i as int);
                }
                let ghost ii = i as int;
                let prev = self.sessions.remove(i);
                proof {
                    assert forall|a: int, b: int|
                        0 <= a < b < self.sessions@.len() implies (#[trigger] self.sessions@[a]).0
                        != (#[trigger] self.sessions@[b]).0 by {
                        let a0 = if a < ii {
                            a
                        } else {
                            a + 1
                        };
                        let b0 = if b < ii {
                            b
                        } else {
                            b + 1
                        };
                        assert(self.sessions@[a] == s0[a0]);
                        assert(self.sessions@[b] == s0[b0]);
                        assert(s0[a0].0 != s0[b0].0);
                    }
                }
                return Some(prev.1);
            }
            i = i + 1;
        }
        proof {
            lemma_session_map_absent(s0, id);
            assert(session_map(s0) =~= session_map(s0).remove(id));
        }
        None
    }

    /// Removes every live session at once and hands them all back for
    /// teardown. Afterwards nothing is live; each removed session appears
    /// exactly once in the result.
    pub fn drain(&mut self) -> (r: Vec<(u64, H)>)
        requires
            old(self).wf(),
        ensures
            final(self).wf(),
            final(self).fresh_ids(),
            final(self)@ == Map::<u64, H>::empty(),
            final(self).allocator == old(self).allocator,
            r@ == old(self).sessions@,
            session_map(r@) == old(self)@,
            session_ids_unique(r@),
            forall|i: int| 0 <= i < r@.len() ==> (#[trigger] r@[i]).0 != 0,
    {
        let r = self.sessions.split_off(0);
        proof {
            assert(r@ =~= old(self).sessions@);
            assert(self.sessions@.len() == 0);
        }
        r
    }

    /// Terminates by id: `0` removes every live session, any other id
    /// removes the one matching session. The removed sessions are handed
    /// back for teardown, each exactly once; an unknown id is a no-op, not
    /// an error, so a kill is idempotent.
    pub fn kill(&mut self, id: u64) -> (r: Vec<(u64, H)>)
        requires
            old(self).wf(),
        ensures
            final(self).wf(),
            old(self).fresh_ids() ==> final(self).fresh_ids(),
            final(self).allocator == old(self).allocator,
            session_ids_unique(r@),
            id == 0 ==> final(self)@ == Map::<u64, H>::empty() && session_map(r@) == old(self)@,
            id != 0 ==> final(self)@ == old(self)@.remove(id),
            id != 0 && old(self)@.dom().contains(id) ==> r@ == seq![(id, old(self)@[id])],
            id != 0 && !old(self)@.dom().contains(id) ==> r@ == Seq::<(u64, H)>::empty(),
    {
        if id == 0 {
            self.drain()
        } else {
            match self.remove(id) {
                Some(h) => {
                    let mut out: Vec<(u64, H)> = Vec::new();
                    out.push((id, h));
                    proof {
                        assert(out@ =~= seq![(id, old(self)@[id])]);
                    }
                    out
                },
                None => {
                    let out: Vec<(u64, H)> = Vec::new();
                    proof {
                        assert(out@ =~= Seq::<(u64, H)>::empty());
                    }
                    out
                },
            }
        }
    }
}

/// A killed id can never be found again: looking an id up in the registry
/// state left by its kill yields nothing, so a subsequent write or resize
/// decision for it is `ResourceNotFound`.
pub proof fn lemma_killed_id_not_found<H>(m: Map<u64, H>, id: u64)
    ensures
        !m.remove(id).dom().contains(id),
{
}

/// No two live sessions ever share an id, and the reserved sentinel `0` is
/// never a live id: the well-formedness that `new` establishes and that
/// every registry operation preserves.
pub proof fn lemma_live_ids_unique_nonzero<H>(reg: SessionRegistry<H>, i: int, j: int)
    requires
        reg.wf(),
        0 <= i < reg.sessions@.len(),
        0 <= j < reg.sessions@.len(),
        i != j,
    ensures
        reg.sessions@[i].0 != reg.sessions@[j].0,
        reg.sessions@[i].0 != 0,
{
}

} // verus!
