//! Registry of identifiers currently considered allocated.
//!
//! The registry supports generate-and-reserve as one atomic operation:
//! it draws random candidates below its bound until one is free, and
//! inserts it before handing it out. The set only ever grows: no
//! reservation is ever given back, so two reservations can never yield
//! the same identifier. Callers that share one registry across workers
//! keep the draw-check-insert sequence a single critical section by
//! guarding the registry with one lock.

use vstd::prelude::*;
use crate::codec::gen_image_url;
use crate::codec::ImageUrl;
use std::collections::HashSet;

verus! {

/// The set of identifiers currently considered allocated, together
/// with the exclusive upper bound of the space new identifiers are
/// drawn from.
pub struct Registry {
    used: HashSet<u64>,
    bound: u64,
}

/// One reservation step: `id` was free in `before` and is present in
/// `after`, which otherwise equals `before`.
pub open spec fn registry_step(before: Set<u64>, id: u64, after: Set<u64>) -> bool {
    &&& !before.contains(id)
    &&& after == before.insert(id)
}

/// The identifier set reached from `init` after marking every
/// identifier of `ids` used, in order.
pub open spec fn ids_after(init: Set<u64>, ids: Seq<u64>) -> Set<u64>
    decreases ids.len(),
{
    if ids.len() == 0 {
        init
    } else {
        ids_after(init, ids.drop_last()).insert(ids.last())
    }
}

/// True when `ids` is a possible run of reservations against a
/// registry that starts with the set `init`: each identifier was free
/// at the moment it was handed out.
pub open spec fn valid_trace(init: Set<u64>, ids: Seq<u64>) -> bool
    decreases ids.len(),
{
    ids.len() == 0 || (valid_trace(init, ids.drop_last()) && !ids_after(
        init,
        ids.drop_last(),
    ).contains(ids.last()))
}

impl View for Registry {
    type V = Set<u64>;

    /// The identifiers currently considered allocated.
    closed spec fn view(&self) -> Set<u64> {
        self.used@
    }
}

impl Registry {
    /// The exclusive upper bound on freshly drawn identifiers.
    pub closed spec fn bound(&self) -> u64 {
        self.bound
    }

    /// Well-formed: the draw space is not empty.
    pub open spec fn wf(&self) -> bool {
        self.bound() >= 1
    }

    /// An empty registry over the identifier space `[0, bound)`.
    pub fn new(bound: u64) -> (r: Registry)
        requires
            bound >= 1,
        ensures
            r.wf(),
            r.bound() == bound,
            r@ == Set::<u64>::empty(),
    {
        Registry { used: HashSet::new(), bound }
    }

    /// How many identifiers are currently allocated.
    pub fn len(&self) -> (r: usize)
        ensures
            r == self@.len(),
    {
        self.used.len()
    }

    /// Whether `id` has been reserved or marked used.
    pub fn contains(&self, id: u64) -> (r: bool)
        ensures
            r == self@.contains(id),
    {
        self.used.contains(&id)
    }

    /// Records `id` as used, whether or not it was before. Used by the
    /// recovery path; never removes anything.
    pub fn mark_used(&mut self, id: u64)
        ensures
            final(self)@ == old(self)@.insert(id),
            final(self).bound() == old(self).bound(),
    {
        self.used.insert(id);
    }

    /// Draws uniformly random identifiers below the bound until one is
    /// free, reserves it, and returns it. The returned identifier was
    /// not allocated before the call and is allocated ever after; the
    /// set grows by exactly that identifier, so every caller that comes
    /// later sees it as taken. On a collision the draw is resampled, up
    /// to `max_attempts` times in all; once the cap is spent the space
    /// is reported exhausted with `None` and the registry is unchanged.
    /// Whether a draw collides is up to the random source, so no cap
    /// guarantees success against a part-filled space; but a draw into
    /// a wholly free space cannot collide, so with at least one attempt
    /// and nothing below the bound allocated, a reservation is owed.
    pub fn reserve_new(&mut self, max_attempts: u64) -> (r: Option<u64>)
        requires
            old(self).wf(),
        ensures
            final(self).wf(),
            final(self).bound() == old(self).bound(),
            match r {
                Some(id) => id < old(self).bound() && registry_step(old(self)@, id, final(self)@),
                None => final(self)@ == old(self)@,
            },
            max_attempts == 0 ==> r is None,
            (max_attempts >= 1 && (forall|i: u64|
                i < old(self).bound() ==> !old(self)@.contains(i))) ==> r is Some,
    {
        let mut attempts = max_attempts;
        while attempts > 0
            invariant
                self.wf(),
                self.bound() == old(self).bound(),
                self@ == old(self)@,
                attempts <= max_attempts,
                (forall|i: u64| i < old(self).bound() ==> !old(self)@.contains(i)) ==> attempts
                    == max_attempts,
            decreases attempts,
        {
            let candidate = gen_image_url(self.bound);
            if !self.used.contains(&candidate.0) {
                self.used.insert(candidate.0);
                return Some(candidate.0);
            }
            attempts = attempts - 1;
        }
        None
    }
}

/// All identifiers of a trace, and all initially known ones, are in
/// the reached set.
proof fn lemma_ids_after_contains(init: Set<u64>, ids: Seq<u64>)
    ensures
        forall|k: int| 0 <= k < ids.len() ==> ids_after(init, ids).contains(#[trigger] ids[k]),
        forall|id: u64| init.contains(id) ==> ids_after(init, ids).contains(id),
    decreases ids.len(),
{
    if ids.len() > 0 {
        let prefix = ids.drop_last();
        lemma_ids_after_contains(init, prefix);
        assert forall|k: int| 0 <= k < ids.len() implies ids_after(init, ids).contains(
            #[trigger] ids[k],
        ) by {
            if k < ids.len() - 1 {
                assert(ids_after(init, prefix).contains(prefix[k]));
            }
        }
    }
}

/// One more reservation — one more step meeting `reserve_new`'s
/// contract — extends a valid trace by its identifier.
pub proof fn lemma_trace_extend(init: Set<u64>, ids: Seq<u64>, id: u64, after: Set<u64>)
    requires
        valid_trace(init, ids),
        registry_step(ids_after(init, ids), id, after),
    ensures
        valid_trace(init, ids.push(id)),
        ids_after(init, ids.push(id)) == after,
{
    assert(ids.push(id).drop_last() =~= ids);
}

/// Law: however the registry starts out, a run of reservations hands
/// out pairwise distinct identifiers — concurrent workers sharing one
/// registry under one lock observe some such run.
pub proof fn lemma_trace_distinct(init: Set<u64>, ids: Seq<u64>)
    requires
        valid_trace(init, ids),
    ensures
        forall|i: int, j: int| 0 <= i < j < ids.len() ==> ids[i] != ids[j],
    decreases ids.len(),
{
    if ids.len() > 0 {
        let prefix = ids.drop_last();
        lemma_trace_distinct(init, prefix);
        lemma_ids_after_contains(init, prefix);
        assert forall|i: int, j: int| 0 <= i < j < ids.len() implies ids[i] != ids[j] by {
            if j < ids.len() - 1 {
                assert(prefix[i] == ids[i] && prefix[j] == ids[j]);
            } else {
                assert(ids_after(init, prefix).contains(prefix[i]));
            }
        }
    }
}

/// Law: an identifier visible in the registry stays visible through
/// any further run of reservations — whoever reserved it can read it
/// back at any later point.
pub proof fn lemma_read_your_write(init: Set<u64>, id: u64, ids: Seq<u64>)
    requires
        init.contains(id),
    ensures
        ids_after(init, ids).contains(id),
    decreases ids.len(),
{
    if ids.len() > 0 {
        lemma_read_your_write(init, id, ids.drop_last());
    }
}

} // verus!
