//! The boundary layer: entry points through which a host runtime creates,
//! inspects, and explicitly releases identifiers.

use crate::identifier::hash_of;
use crate::identifier::PositionId;
use vstd::prelude::*;

verus! {

/// Consumes and destroys an identifier, freeing its owned storage. This is a
/// terminal operation: the identifier is moved in, so any later use of it is
/// a compile-time error for the caller.
pub fn position_id_free(position_id: PositionId) {
    let _ = position_id;
}

/// Thin pass-through to content equality, encoded as one byte (1 for equal,
/// 0 for unequal), since the host runtime may not share a native boolean
/// representation.
pub fn position_id_eq(lhs: &PositionId, rhs: &PositionId) -> (r: u8)
    ensures
        r == (if lhs@ == rhs@ {
            1u8
        } else {
            0u8
        }),
{
    if lhs.equals(rhs) {
        1
    } else {
        0
    }
}

/// Thin pass-through to the identifier's content hash.
pub fn position_id_hash(position_id: &PositionId) -> (h: u64)
    ensures
        h == hash_of(position_id@),
{
    position_id.hash_value()
}

/// The boundary layer's arena of owned identifiers, indexed by opaque
/// integer handles.
///
/// A host runtime that manages memory independently refers to an identifier
/// only through a handle: `acquire` copies foreign text into a newly owned
/// identifier, the read-only operations borrow the identifier behind a live
/// handle, and `release` destroys it. A released handle is never revived and
/// a slot is never reused, so any operation on a stale handle fails cleanly
/// with a reported error instead of being undefined behavior.
pub struct IdentifierArena {
    slots: Vec<Option<PositionId>>,
}

impl View for IdentifierArena {
    type V = Seq<Option<Seq<char>>>;

    closed spec fn view(&self) -> Seq<Option<Seq<char>>> {
        Seq::new(
            self.slots@.len(),
            |i: int|
                match self.slots@[i] {
                    Some(id) => Some(id@),
                    None => None,
                },
        )
    }
}

/// A handle is live in a boundary state when it names a slot that still
/// holds an identifier's text.
pub open spec fn live_in(state: Seq<Option<Seq<char>>>, handle: usize) -> bool {
    handle < state.len() && state[handle as int] is Some
}

/// A handle is dead in a boundary state: its slot was acquired once and has
/// since been released.
pub open spec fn dead_in(state: Seq<Option<Seq<char>>>, handle: usize) -> bool {
    handle < state.len() && state[handle as int] is None
}

/// One observable step of the boundary layer's state: an acquire appends one
/// owned identifier, a release clears one slot, and every read-only
/// operation leaves the state unchanged.
pub open spec fn boundary_step(
    pre: Seq<Option<Seq<char>>>,
    post: Seq<Option<Seq<char>>>,
) -> bool {
    ||| (exists|text: Seq<char>| post == pre.push(Some(text)))
    ||| (exists|handle: int|
        0 <= handle < pre.len() && post == pre.update(handle, None::<Seq<char>>))
    ||| post == pre
}

/// A trace of boundary states in which each state steps to the next.
pub open spec fn boundary_trace(trace: Seq<Seq<Option<Seq<char>>>>) -> bool {
    forall|i: int| 0 <= i < trace.len() - 1 ==> #[trigger] boundary_step(trace[i], trace[i + 1])
}

impl IdentifierArena {
    /// A handle is live when it names a slot that still holds an identifier.
    pub open spec fn live(&self, handle: usize) -> bool {
        live_in(self@, handle)
    }

    /// The text of the identifier behind a live handle.
    pub open spec fn text_of(&self, handle: usize) -> Seq<char>
        recommends
            self.live(handle),
    {
        self@[handle as int].unwrap()
    }

    /// Creates an arena with no live handles.
    pub fn new() -> (arena: IdentifierArena)
        ensures
            arena@ == Seq::<Option<Seq<char>>>::empty(),
    {
        let arena = IdentifierArena { slots: Vec::new() };
        proof {
            assert(arena@ =~= Seq::<Option<Seq<char>>>::empty());
        }
        arena
    }

    /// Acquire-from-foreign-text: copies `text` into a newly owned
    /// identifier, takes ownership of it, and returns a fresh handle. The
    /// handle of every identifier acquired earlier is left untouched.
    pub fn acquire(&mut self, text: &str) -> (handle: usize)
        ensures
            handle == old(self)@.len(),
            final(self)@ == old(self)@.push(Some(text@)),
            final(self).live(handle),
            final(self).text_of(handle) == text@,
            boundary_step(old(self)@, final(self)@),
    {
        let handle = self.slots.len();
        self.slots.push(Some(PositionId::from(text)));
        proof {
            assert(self@ =~= old(self)@.push(Some(text@)));
            assert(exists|t: Seq<char>| self@ == old(self)@.push(Some(t))) by {
                assert(self@ == old(self)@.push(Some(text@)));
            }
        }
        handle
    }

    /// Borrows the identifier behind `handle`; reports `None` when the
    /// handle is not live (never acquired here, or already released).
    pub fn lookup(&self, handle: usize) -> (r: Option<&PositionId>)
        ensures
            match r {
                Some(id) => self.live(handle) && id@ == self.text_of(handle),
                None => !self.live(handle),
            },
    {
        if handle < self.slots.len() {
            match &self.slots[handle] {
                Some(id) => Some(id),
                None => None,
            }
        } else {
            None
        }
    }

    /// Expose-as-foreign-text: borrows the text behind a live handle. No
    /// ownership is transferred: the borrow is valid only while the arena
    /// still owns the identifier.
    pub fn expose(&self, handle: usize) -> (r: Option<&str>)
        ensures
            match r {
                Some(text) => self.live(handle) && text@ == self.text_of(handle),
                None => !self.live(handle),
            },
    {
        match self.lookup(handle) {
            Some(id) => Some(id.as_text()),
            None => None,
        }
    }

    /// Content equality of the identifiers behind two live handles, encoded
    /// as one byte; reports `None` when either handle is not live.
    pub fn eq_handles(&self, lhs: usize, rhs: usize) -> (r: Option<u8>)
        ensures
            match r {
                Some(b) => self.live(lhs) && self.live(rhs) && b == (
                if self.text_of(lhs) == self.text_of(rhs) {
                    1u8
                } else {
                    0u8
                }),
                None => !self.live(lhs) || !self.live(rhs),
            },
    {
        match (self.lookup(lhs), self.lookup(rhs)) {
            (Some(a), Some(b)) => Some(position_id_eq(a, b)),
            _ => None,
        }
    }

    /// The content hash of the identifier behind a live handle; reports
    /// `None` when the handle is not live.
    pub fn hash_handle(&self, handle: usize) -> (r: Option<u64>)
        ensures
            match r {
                Some(h) => self.live(handle) && h == hash_of(self.text_of(handle)),
                None => !self.live(handle),
            },
    {
        match self.lookup(handle) {
            Some(id) => Some(position_id_hash(id)),
            None => None,
        }
    }

    /// Release: destroys the identifier behind `handle` and frees its owned
    /// storage, reporting whether the handle was live. This is terminal: the
    /// handle is not live afterwards, every other handle is left untouched,
    /// and a second release of the same handle reports `false` instead of
    /// being undefined behavior.
    pub fn release(&mut self, handle: usize) -> (released: bool)
        ensures
            released == old(self).live(handle),
            final(self)@.len() == old(self)@.len(),
            !final(self).live(handle),
            handle < old(self)@.len() ==> dead_in(final(self)@, handle),
            forall|other: usize|
                other != handle && other < old(self)@.len() ==> final(self)@[other as int] == old(
                    self,
                )@[other as int],
            boundary_step(old(self)@, final(self)@),
    {
        if handle < self.slots.len() {
            let released = self.slots[handle].is_some();
            self.slots[handle] = None;
            proof {
                assert(self@ =~= old(self)@.update(handle as int, None::<Seq<char>>));
                assert(exists|i: int|
                    0 <= i < old(self)@.len() && self@ == old(self)@.update(
                        i,
                        None::<Seq<char>>,
                    )) by {
                    assert(self@ == old(self)@.update(handle as int, None::<Seq<char>>));
                }
            }
            released
        } else {
            false
        }
    }
}

/// A released handle stays dead across any single boundary step: an acquire
/// never reuses its slot, and a release never refills one.
pub proof fn lemma_step_preserves_dead(
    pre: Seq<Option<Seq<char>>>,
    post: Seq<Option<Seq<char>>>,
    handle: usize,
)
    requires
        boundary_step(pre, post),
        dead_in(pre, handle),
    ensures
        dead_in(post, handle),
{
    if exists|text: Seq<char>| post == pre.push(Some(text)) {
        let text = choose|text: Seq<char>| post == pre.push(Some(text));
        assert(post[handle as int] == pre[handle as int]);
    } else if exists|i: int| 0 <= i < pre.len() && post == pre.update(i, None::<Seq<char>>) {
        let i = choose|i: int| 0 <= i < pre.len() && post == pre.update(i, None::<Seq<char>>);
        assert(post[handle as int] is None);
    }
}

/// Law: release is terminal. Once a handle is dead, no sequence of later
/// boundary operations — acquires, releases, or read-only calls — ever makes
/// it live again, so every later lookup against it keeps failing cleanly.
pub proof fn lemma_released_handle_stays_dead(trace: Seq<Seq<Option<Seq<char>>>>, handle: usize)
    requires
        boundary_trace(trace),
        trace.len() > 0,
        dead_in(trace.first(), handle),
    ensures
        dead_in(trace.last(), handle),
        !live_in(trace.last(), handle),
    decreases trace.len(),
{
    if trace.len() > 1 {
        assert(boundary_step(trace[0], trace[0int + 1]));
        lemma_step_preserves_dead(trace[0], trace[1], handle);
        let rest = trace.drop_first();
        assert(boundary_trace(rest)) by {
            assert forall|i: int| 0 <= i < rest.len() - 1 implies #[trigger] boundary_step(
                rest[i],
                rest[i + 1],
            ) by {
                assert(boundary_step(trace[i + 1], trace[i + 1 + 1]));
                assert(rest[i] == trace[i + 1]);
                assert(rest[i + 1] == trace[i + 1 + 1]);
            }
        }
        lemma_released_handle_stays_dead(rest, handle);
        assert(rest.last() == trace.last());
    }
}

} // verus!
