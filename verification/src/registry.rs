//! The server-side dispatch registry.
//!
//! The registry owns the set of procedures exposed to remote callers, each
//! under a unique tag. Registration happens once at startup and the set is
//! never mutated afterwards; a duplicate tag is refused so startup can treat
//! it as fatal. A lookup turns the tag of an inbound Call envelope into the
//! handle of the dispatch record that knows how to decode that call's
//! parameters, run the procedure, and encode its Result.

use vstd::prelude::*;
use vstd::slice::slice_index_get;
use crate::errors::DuplicateTag;

verus! {

/// The registry: a handle is an index into the registration order, so the
/// view is the sequence of registered tags. The well-formedness invariant
/// is that no tag occurs twice.
pub struct Registry {
    tags: Vec<Vec<u8>>,
}

impl View for Registry {
    type V = Seq<Seq<u8>>;

    closed spec fn view(&self) -> Seq<Seq<u8>> {
        Seq::new(self.tags@.len(), |i: int| self.tags@[i]@)
    }
}

/// Compares two byte strings for equality.
fn bytes_eq(a: &[u8], b: &[u8]) -> (r: bool)
    ensures
        r == (a@ == b@),
{
    if a.len() != b.len() {
        return false;
    }
    let mut i: usize = 0;
    while i < a.len()
        invariant
            a@.len() == b@.len(),
            i <= a@.len(),
            forall|j: int| 0 <= j < i ==> a@[j] == b@[j],
        decreases a@.len() - i,
    {
        if *slice_index_get(a, i) != *slice_index_get(b, i) {
            return false;
        }
        i = i + 1;
    }
    proof {
        assert(a@ =~= b@);
    }
    true
}

impl Registry {
    /// No tag is registered twice.
    pub open spec fn wf(&self) -> bool {
        forall|i: int, j: int|
            0 <= i < self@.len() && 0 <= j < self@.len() && i != j ==> self@[i] != self@[j]
    }

    /// An empty registry, exposing no procedures.
    pub fn new() -> (r: Registry)
        ensures
            r@ == Seq::<Seq<u8>>::empty(),
            r.wf(),
    {
        Registry { tags: Vec::new() }
    }

    /// How many dispatch records are registered.
    pub fn len(&self) -> (n: usize)
        ensures
            n == self@.len(),
    {
        self.tags.len()
    }

    /// Registers a procedure under `tag` and hands back its dispatch handle.
    /// A tag that is already taken is refused and the registry is unchanged;
    /// startup treats that as a fatal configuration error.
    pub fn register(&mut self, tag: Vec<u8>) -> (r: Result<usize, DuplicateTag>)
        requires
            old(self).wf(),
        ensures
            final(self).wf(),
            (match r {
                Ok(h) => {
                    &&& forall|i: int| 0 <= i < old(self)@.len() ==> old(self)@[i] != tag@
                    &&& h == old(self)@.len()
                    &&& final(self)@ == old(self)@.push(tag@)
                },
                Err(_) => {
                    &&& exists|i: int| 0 <= i < old(self)@.len() && old(self)@[i] == tag@
                    &&& final(self)@ == old(self)@
                },
            }),
    {
        if self.lookup(tag.as_slice()).is_some() {
            return Err(DuplicateTag);
        }
        let ghost tv = tag@;
        let h = self.tags.len();
        self.tags.push(tag);
        proof {
            assert(self@ =~= old(self)@.push(tv));
        }
        Ok(h)
    }

    /// Looks up the dispatch handle registered for `tag`, if any. Uniqueness
    /// of tags makes the handle the one and only record for that procedure.
    pub fn lookup(&self, tag: &[u8]) -> (r: Option<usize>)
        ensures
            (match r {
                Some(h) => h < self@.len() && self@[h as int] == tag@,
                None => forall|i: int| 0 <= i < self@.len() ==> self@[i] != tag@,
            }),
    {
        let mut i: usize = 0;
        let n: usize = self.tags.len();
        while i < n
            invariant
                n == self@.len(),
                i <= n,
                forall|j: int| 0 <= j < i ==> self@[j] != tag@,
            decreases n - i,
        {
            if bytes_eq(self.tags[i].as_slice(), tag) {
                return Some(i);
            }
            i = i + 1;
        }
        None
    }
}

} // verus!
