//! The authoritative, in-process record of which sandbox containers exist,
//! per language, and whether each is free or serving a request.
//!
//! Per language the inventory keeps two ordered lists: `available` (front =
//! most recently released, so reuse favors warm caches) and `in_use` (front =
//! earliest checked out). Well-formedness — the per-language cap, the
//! language of every handle matching its lane, and global distinctness of
//! container ids — is established by the constructor and preserved by every
//! operation. A handle always leaves the inventory before its container is
//! destroyed: the removal operations mutate the record and hand the caller
//! what to destroy afterwards.

use vstd::prelude::*;
use crate::error::CompilerError;
use crate::lang::{LanguageId, LANGUAGE_COUNT};
use crate::strutil::str_eq;

verus! {

/// A tracked sandbox container: its runtime id, its language, and when it
/// was created (milliseconds, caller's clock).
pub struct ContainerHandle {
    pub id: String,
    pub language: LanguageId,
    pub created_at: u64,
}

impl ContainerHandle {
    /// A field-for-field copy.
    pub fn duplicate(&self) -> (r: ContainerHandle)
        ensures
            r.id@ == self.id@,
            r.language == self.language,
            r.created_at == self.created_at,
    {
        ContainerHandle {
            id: self.id.clone(),
            language: self.language,
            created_at: self.created_at,
        }
    }
}

/// The two per-language lists.
pub struct LanguageLane {
    pub available: Vec<ContainerHandle>,
    pub in_use: Vec<ContainerHandle>,
}

/// What `ContainerInventory::acquire` decided.
pub enum AcquireOutcome {
    /// A released, still-live container was checked out again.
    Reused(ContainerHandle),
    /// Nothing is free and the lane is under its cap: the caller must create
    /// a container and register it.
    MustCreate,
    /// The lane is saturated: the oldest checked-out container is shared,
    /// accepting cross-talk rather than queueing.
    SharedOldest(ContainerHandle),
}

/// The per-language container record behind the pool's single lock.
pub struct ContainerInventory {
    pub max_pool_size: usize,
    pub lanes: Vec<LanguageLane>,
}

impl ContainerInventory {
    /// All handles of lane `i`, available first.
    pub open spec fn lane_of(self, i: int) -> Seq<ContainerHandle> {
        self.lanes@[i].available@ + self.lanes@[i].in_use@
    }

    /// The id at position `k` of lane `i`.
    pub open spec fn id_at(self, i: int, k: int) -> Seq<char> {
        self.lane_of(i)[k].id@
    }

    /// The free handles of `language`, most recently released first.
    pub open spec fn available(self, language: LanguageId) -> Seq<ContainerHandle> {
        self.lanes@[language.spec_index()].available@
    }

    /// The checked-out handles of `language`, earliest checkout first.
    pub open spec fn in_use(self, language: LanguageId) -> Seq<ContainerHandle> {
        self.lanes@[language.spec_index()].in_use@
    }

    /// How many containers of `language` are tracked.
    pub open spec fn count(self, language: LanguageId) -> int {
        self.available(language).len() + self.in_use(language).len() as int
    }

    /// Some tracked handle carries `id`.
    pub open spec fn tracked_id(self, id: Seq<char>) -> bool {
        exists|i: int, k: int|
            0 <= i < LANGUAGE_COUNT && 0 <= k < self.lane_of(i).len() && #[trigger] self.id_at(
                i,
                k,
            ) == id
    }

    /// Lane `i` is not touched when another language's lane changes.
    pub open spec fn lane_unchanged(self, other: ContainerInventory, i: int) -> bool {
        self.lanes@[i].available@ == other.lanes@[i].available@ && self.lanes@[i].in_use@
            == other.lanes@[i].in_use@
    }


    /// Well-formedness: one lane per language, the cap respected everywhere,
    /// every handle in the lane of its own language, and no container id
    /// tracked twice.
    pub open spec fn wf(self) -> bool {
        &&& self.lanes@.len() == LANGUAGE_COUNT
        &&& 1 <= self.max_pool_size
        &&& forall|i: int|
            0 <= i < LANGUAGE_COUNT ==> #[trigger] self.lane_of(i).len() <= self.max_pool_size
        &&& forall|i: int, k: int|
            0 <= i < LANGUAGE_COUNT && 0 <= k < self.lane_of(i).len() ==> (
            #[trigger] self.lane_of(i)[k]).language.spec_index() == i
        &&& forall|i1: int, k1: int, i2: int, k2: int|
            0 <= i1 < LANGUAGE_COUNT && 0 <= k1 < self.lane_of(i1).len() && 0 <= i2
                < LANGUAGE_COUNT && 0 <= k2 < self.lane_of(i2).len() && (i1 != i2 || k1 != k2)
                ==> #[trigger] self.id_at(i1, k1) != #[trigger] self.id_at(i2, k2)
    }

    /// An empty inventory capped at `max_pool_size` containers per language.
    pub fn new(max_pool_size: usize) -> (r: ContainerInventory)
        requires
            max_pool_size >= 1,
        ensures
            r.wf(),
            r.max_pool_size == max_pool_size,
            forall|i: int| 0 <= i < LANGUAGE_COUNT ==> #[trigger] r.lane_of(i).len() == 0,
    {
        let mut lanes: Vec<LanguageLane> = Vec::new();
        let mut j: usize = 0;
        while j < LANGUAGE_COUNT
            invariant
                j <= LANGUAGE_COUNT,
                lanes@.len() == j,
                forall|i: int|
                    0 <= i < j ==> (#[trigger] lanes@[i].available@).len() == 0
                        && lanes@[i].in_use@.len() == 0,
            decreases LANGUAGE_COUNT - j,
        {
            lanes.push(LanguageLane { available: Vec::new(), in_use: Vec::new() });
            j = j + 1;
        }
        let r = ContainerInventory { max_pool_size, lanes };
        proof {
            assert forall|i: int| 0 <= i < LANGUAGE_COUNT implies #[trigger] r.lane_of(i).len()
                == 0 by {
                assert(r.lanes@[i].available@.len() == 0);
            }
        }
        r
    }

    /// How many containers of `language` are tracked right now.
    pub fn count_for(&self, language: LanguageId) -> (r: usize)
        requires
            self.wf(),
        ensures
            r == self.count(language),
            r <= self.max_pool_size,
    {
        let idx = language.index();
        let lane = &self.lanes[idx];
        proof {
            assert(self.lane_of(idx as int).len() <= self.max_pool_size);
        }
        lane.available.len() + lane.in_use.len()
    }

    /// Checks out a container of `language`: the most recently released one
    /// when any is free; otherwise asks the caller to create one when the
    /// lane is under its cap; otherwise shares the oldest checked-out one.
    pub fn acquire(&mut self, language: LanguageId) -> (r: AcquireOutcome)
        requires
            old(self).wf(),
        ensures
            final(self).wf(),
            final(self).max_pool_size == old(self).max_pool_size,
            forall|i: int|
                0 <= i < LANGUAGE_COUNT && i != language.spec_index() ==> final(self).lane_unchanged(*old(self), i),
            old(self).available(language).len() > 0 ==> (r matches AcquireOutcome::Reused(h) && {
                &&& h.id@ == old(self).available(language)[0].id@
                &&& h.language == old(self).available(language)[0].language
                &&& h.created_at == old(self).available(language)[0].created_at
                &&& final(self).available(language) == old(self).available(language).drop_first()
                &&& final(self).in_use(language) == old(self).in_use(language).push(
                    old(self).available(language)[0],
                )
            }),
            old(self).available(language).len() == 0 && old(self).count(language) < old(self).max_pool_size ==> (r is MustCreate && final(self).lane_unchanged(
                *old(self),
                language.spec_index(),
            )),
            old(self).available(language).len() == 0 && old(self).count(language) >= old(self).max_pool_size ==> (r matches AcquireOutcome::SharedOldest(h) && {
                &&& h.id@ == old(self).in_use(language)[0].id@
                &&& h.language == old(self).in_use(language)[0].language
                &&& h.created_at == old(self).in_use(language)[0].created_at
                &&& final(self).lane_unchanged(*old(self), language.spec_index())
            }),
            final(self).count(language) == old(self).count(language),
    {
        let idx = language.index();
        let ghost li = idx as int;
        let ghost prev = *self;
        let mut lane = self.lanes.remove(idx);
        if lane.available.len() > 0 {
            let handle = lane.available.remove(0);
            let copy = handle.duplicate();
            lane.in_use.push(handle);
            self.lanes.insert(idx, lane);
            proof {
                assert(self.lanes@ =~= prev.lanes@.update(
                    li,
                    self.lanes@[li],
                ));
                assert(self.available(language) =~= prev.available(language).drop_first());
                assert(self.in_use(language) =~= prev.in_use(language).push(
                    prev.available(language)[0],
                ));
                let n = prev.lane_of(li).len() as int;
                assert forall|k: int| 0 <= k < n implies self.lane_of(li)[k] == prev.lane_of(li)[
                    if k + 1 < n {
                        k + 1
                    } else {
                        0
                    }
                ] by {
                    assert(self.lane_of(li).len() == n);
                }
                lemma_rotation_preserves_wf(prev, *self, li);
            }
            AcquireOutcome::Reused(copy)
        } else if lane.available.len() + lane.in_use.len() < self.max_pool_size {
            self.lanes.insert(idx, lane);
            proof {
                assert(self.lanes@ =~= prev.lanes@);
                lemma_wf_congruence(prev, *self);
            }
            AcquireOutcome::MustCreate
        } else {
            let copy = lane.in_use[0].duplicate();
            self.lanes.insert(idx, lane);
            proof {
                assert(self.lanes@ =~= prev.lanes@);
                lemma_wf_congruence(prev, *self);
                assert(prev.in_use(language).len() > 0);
            }
            AcquireOutcome::SharedOldest(copy)
        }
    }

    /// Whether some tracked container carries `id`.
    pub fn is_tracked(&self, id: &str) -> (r: bool)
        requires
            self.wf(),
        ensures
            r == self.tracked_id(id@),
    {
        let mut i: usize = 0;
        while i < self.lanes.len()
            invariant
                self.wf(),
                i <= LANGUAGE_COUNT,
                self.lanes@.len() == LANGUAGE_COUNT,
                forall|li: int, k: int|
                    0 <= li < i && 0 <= k < self.lane_of(li).len() ==> #[trigger] self.id_at(
                        li,
                        k,
                    ) != id@,
            decreases LANGUAGE_COUNT - i,
        {
            let lane = &self.lanes[i];
            let mut k: usize = 0;
            while k < lane.available.len()
                invariant
                    self.lanes@.len() == LANGUAGE_COUNT,
                    i < self.lanes@.len(),
                    lane == self.lanes@[i as int],
                    k <= lane.available@.len(),
                    forall|k0: int| 0 <= k0 < k ==> (#[trigger] lane.available@[k0]).id@ != id@,
                decreases lane.available@.len() - k,
            {
                if str_eq(lane.available[k].id.as_str(), id) {
                    proof {
                        assert(self.id_at(i as int, k as int) == id@);
                    }
                    return true;
                }
                k = k + 1;
            }
            let mut k2: usize = 0;
            while k2 < lane.in_use.len()
                invariant
                    self.lanes@.len() == LANGUAGE_COUNT,
                    i < self.lanes@.len(),
                    lane == self.lanes@[i as int],
                    k2 <= lane.in_use@.len(),
                    forall|k0: int| 0 <= k0 < k2 ==> (#[trigger] lane.in_use@[k0]).id@ != id@,
                decreases lane.in_use@.len() - k2,
            {
                if str_eq(lane.in_use[k2].id.as_str(), id) {
                    proof {
                        assert(self.id_at(i as int, lane.available@.len() + k2) == id@);
                    }
                    return true;
                }
                k2 = k2 + 1;
            }
            proof {
                assert forall|k0: int|
                    0 <= k0 < self.lane_of(i as int).len() implies #[trigger] self.id_at(
                    i as int,
                    k0,
                ) != id@ by {
                    if k0 < lane.available@.len() {
                        assert(self.lane_of(i as int)[k0] == lane.available@[k0]);
                    } else {
                        assert(self.lane_of(i as int)[k0] == lane.in_use@[k0
                            - lane.available@.len()]);
                    }
                }
            }
            i = i + 1;
        }
        proof {
            assert(!self.tracked_id(id@)) by {
                if self.tracked_id(id@) {
                    let (li, k) = choose|li: int, k: int|
                        0 <= li < LANGUAGE_COUNT && 0 <= k < self.lane_of(li).len()
                            && #[trigger] self.id_at(li, k) == id@;
                    assert(self.id_at(li, k) != id@);
                }
            }
        }
        false
    }


    /// Drops the handles marked dead by a liveness sweep of `language`'s
    /// lane: position `k` of each list survives exactly when its flag is
    /// true. The probe results were computed outside the lock; this applies
    /// them as one atomic batch.
    pub fn apply_liveness(
        &mut self,
        language: LanguageId,
        available_alive: &Vec<bool>,
        in_use_alive: &Vec<bool>,
    )
        requires
            old(self).wf(),
            available_alive@.len() == old(self).available(language).len(),
            in_use_alive@.len() == old(self).in_use(language).len(),
        ensures
            final(self).wf(),
            final(self).max_pool_size == old(self).max_pool_size,
            forall|i: int|
                0 <= i < LANGUAGE_COUNT && i != language.spec_index() ==> final(self).lane_unchanged(*old(self), i),
            final(self).available(language) == spec_mask(
                old(self).available(language),
                available_alive@,
            ),
            final(self).in_use(language) == spec_mask(old(self).in_use(language), in_use_alive@),
    {
        let idx = language.index();
        let ghost li = idx as int;
        let ghost prev = *self;
        let mut lane = self.lanes.remove(idx);
        let kept_available = filter_by_mask(lane.available, available_alive);
        let kept_in_use = filter_by_mask(lane.in_use, in_use_alive);
        lane = LanguageLane { available: kept_available, in_use: kept_in_use };
        self.lanes.insert(idx, lane);
        proof {
            assert(self.lanes@ =~= prev.lanes@.update(li, self.lanes@[li]));
            assert(self.available(language) == spec_mask(
                prev.available(language),
                available_alive@,
            ));
            assert(self.in_use(language) == spec_mask(prev.in_use(language), in_use_alive@));
            lemma_two_masks_preserve_wf(prev, *self, li, available_alive@, in_use_alive@);
        }
    }

    /// Stops tracking whatever handle carries `id`, in every lane; the
    /// caller destroys the container only after this returns, so no acquirer
    /// can be handed a handle to a container mid-teardown.
    pub fn remove_tracked(&mut self, id: &str)
        requires
            old(self).wf(),
        ensures
            final(self).wf(),
            final(self).max_pool_size == old(self).max_pool_size,
            forall|i: int|
                0 <= i < LANGUAGE_COUNT ==> final(self).lanes@[i].available@ == spec_remove_id(
                    old(self).lanes@[i].available@,
                    id@,
                ) && final(self).lanes@[i].in_use@ == spec_remove_id(
                    old(self).lanes@[i].in_use@,
                    id@,
                ),
            !final(self).tracked_id(id@),
    {
        let ghost orig = *self;
        let mut i: usize = 0;
        while i < LANGUAGE_COUNT
            invariant
                self.wf(),
                self.max_pool_size == orig.max_pool_size,
                orig.wf(),
                i <= LANGUAGE_COUNT,
                forall|j: int|
                    0 <= j < i ==> self.lanes@[j].available@ == spec_remove_id(
                        orig.lanes@[j].available@,
                        id@,
                    ) && self.lanes@[j].in_use@ == spec_remove_id(orig.lanes@[j].in_use@, id@),
                forall|j: int|
                    i <= j < LANGUAGE_COUNT ==> self.lane_unchanged(orig, j),
            decreases LANGUAGE_COUNT - i,
        {
            let ghost prev = *self;
            let mut lane = self.lanes.remove(i);
            let avail_mask = mask_not_id(&lane.available, id);
            let used_mask = mask_not_id(&lane.in_use, id);
            let kept_available = filter_by_mask(lane.available, &avail_mask);
            let kept_in_use = filter_by_mask(lane.in_use, &used_mask);
            lane = LanguageLane { available: kept_available, in_use: kept_in_use };
            self.lanes.insert(i, lane);
            proof {
                let li = i as int;
                assert(self.lanes@ =~= prev.lanes@.update(li, self.lanes@[li]));
                lemma_mask_matches_remove(prev.lanes@[li].available@, avail_mask@, id@);
                lemma_mask_matches_remove(prev.lanes@[li].in_use@, used_mask@, id@);
                assert(self.lanes@[li].available@ == spec_remove_id(
                    prev.lanes@[li].available@,
                    id@,
                ));
                assert(self.lanes@[li].in_use@ == spec_remove_id(prev.lanes@[li].in_use@, id@));
                lemma_two_masks_preserve_wf(prev, *self, li, avail_mask@, used_mask@);
                assert(prev.lane_unchanged(orig, li));
                assert(self.lanes@[li].available@ == spec_remove_id(
                    orig.lanes@[li].available@,
                    id@,
                ));
                assert(self.lanes@[li].in_use@ == spec_remove_id(orig.lanes@[li].in_use@, id@));
                assert forall|j: int| 0 <= j < i + 1 implies self.lanes@[j].available@
                    == spec_remove_id(orig.lanes@[j].available@, id@) && self.lanes@[j].in_use@
                    == spec_remove_id(orig.lanes@[j].in_use@, id@) by {
                    if j < i {
                        assert(self.lanes@[j] == prev.lanes@[j]);
                    }
                }
                assert forall|j: int|
                    i + 1 <= j < LANGUAGE_COUNT implies self.lane_unchanged(orig, j) by {
                    assert(self.lanes@[j] == prev.lanes@[j]);
                    assert(prev.lane_unchanged(orig, j));
                }
            }
            i = i + 1;
        }
        proof {
            assert(!self.tracked_id(id@)) by {
                if self.tracked_id(id@) {
                    let (li, k) = choose|li: int, k: int|
                        0 <= li < LANGUAGE_COUNT && 0 <= k < self.lane_of(li).len()
                            && #[trigger] self.id_at(li, k) == id@;
                    lemma_remove_id_all_differ(orig.lanes@[li].available@, id@);
                    lemma_remove_id_all_differ(orig.lanes@[li].in_use@, id@);
                    if k < self.lanes@[li].available@.len() {
                        assert(self.lane_of(li)[k] == self.lanes@[li].available@[k]);
                    } else {
                        assert(self.lane_of(li)[k] == self.lanes@[li].in_use@[k - self.lanes@[
                            li].available@.len()]);
                    }
                }
            }
        }
    }

    /// Empties the whole inventory, handing back every tracked handle exactly
    /// once — available lists first within each lane — for the shutdown
    /// routine to force-remove.
    pub fn drain_all(&mut self) -> (drained: Vec<ContainerHandle>)
        requires
            old(self).wf(),
        ensures
            final(self).wf(),
            final(self).max_pool_size == old(self).max_pool_size,
            drained@ == old(self).all_handles(),
            forall|i: int| 0 <= i < LANGUAGE_COUNT ==> #[trigger] final(self).lane_of(i).len() == 0,
    {
        let ghost orig = *self;
        let mut drained: Vec<ContainerHandle> = Vec::new();
        let mut i: usize = 0;
        proof {
            assert(drained@ =~= orig.handles_up_to(0));
        }
        while i < LANGUAGE_COUNT
            invariant
                self.max_pool_size == orig.max_pool_size,
                self.lanes@.len() == LANGUAGE_COUNT,
                orig.wf(),
                i <= LANGUAGE_COUNT,
                drained@ == orig.handles_up_to(i as int),
                forall|j: int|
                    0 <= j < i ==> (#[trigger] self.lanes@[j].available@).len() == 0
                        && self.lanes@[j].in_use@.len() == 0,
                forall|j: int|
                    i <= j < LANGUAGE_COUNT ==> self.lane_unchanged(orig, j),
            decreases LANGUAGE_COUNT - i,
        {
            let ghost prev = *self;
            let mut lane = self.lanes.remove(i);
            drained.append(&mut lane.available);
            drained.append(&mut lane.in_use);
            self.lanes.insert(i, lane);
            proof {
                let li = i as int;
                assert(self.lanes@ =~= prev.lanes@.update(li, self.lanes@[li]));
                assert(prev.lane_unchanged(orig, li));
                assert(drained@ =~= orig.handles_up_to(li) + orig.lane_of(li));
                assert(drained@ == orig.handles_up_to(li + 1));
                assert forall|j: int|
                    0 <= j < i + 1 implies (#[trigger] self.lanes@[j].available@).len() == 0
                    && self.lanes@[j].in_use@.len() == 0 by {
                    if j < i {
                        assert(self.lanes@[j] == prev.lanes@[j]);
                    }
                }
                assert forall|j: int|
                    i + 1 <= j < LANGUAGE_COUNT implies self.lane_unchanged(orig, j) by {
                    assert(self.lanes@[j] == prev.lanes@[j]);
                    assert(prev.lane_unchanged(orig, j));
                }
            }
            i = i + 1;
        }
        proof {
            assert forall|i0: int| 0 <= i0 < LANGUAGE_COUNT implies #[trigger] self.lane_of(
                i0,
            ).len() == 0 by {
                assert(self.lanes@[i0].available@.len() == 0);
            }
        }
        drained
    }

    /// The ids of the free handles of `language`, in order, for a liveness
    /// probe made without holding the pool's lock.
    pub fn available_ids(&self, language: LanguageId) -> (r: Vec<String>)
        requires
            self.wf(),
        ensures
            r@.len() == self.available(language).len(),
            forall|k: int| 0 <= k < r@.len() ==> #[trigger] r@[k]@ == self.available(language)[k].id@,
    {
        let idx = language.index();
        let lane = &self.lanes[idx];
        clone_ids(&lane.available)
    }

    /// The ids of the checked-out handles of `language`, in order.
    pub fn in_use_ids(&self, language: LanguageId) -> (r: Vec<String>)
        requires
            self.wf(),
        ensures
            r@.len() == self.in_use(language).len(),
            forall|k: int| 0 <= k < r@.len() ==> #[trigger] r@[k]@ == self.in_use(language)[k].id@,
    {
        let idx = language.index();
        let lane = &self.lanes[idx];
        clone_ids(&lane.in_use)
    }

    /// Every tracked handle of lanes `0..i`, lane by lane, available lists
    /// first.
    pub open spec fn handles_up_to(self, i: int) -> Seq<ContainerHandle>
        decreases i,
    {
        if i <= 0 {
            Seq::empty()
        } else {
            self.handles_up_to(i - 1) + self.lane_of(i - 1)
        }
    }

    /// Every tracked handle, lane by lane.
    pub open spec fn all_handles(self) -> Seq<ContainerHandle> {
        self.handles_up_to(LANGUAGE_COUNT as int)
    }

    /// Tracks a freshly created container as checked out by its creator.
    /// Registration fails — and the inventory stays as it was — when the lane
    /// is already at its cap or the runtime handed back an id that is already
    /// tracked; either way the container was not created the way the pool
    /// asked, and the caller must treat it as a creation failure.
    pub fn register(&mut self, handle: ContainerHandle) -> (r: Result<(), CompilerError>)
        requires
            old(self).wf(),
        ensures
            final(self).wf(),
            final(self).max_pool_size == old(self).max_pool_size,
            r matches Err(e) ==> e is ContainerCreationFailed && *final(self) == *old(self) && (
            old(self).count(handle.language) >= old(self).max_pool_size || old(self).tracked_id(
                handle.id@,
            )),
            r is Ok ==> {
                &&& old(self).count(handle.language) < old(self).max_pool_size
                &&& !old(self).tracked_id(handle.id@)
                &&& final(self).available(handle.language) == old(self).available(handle.language)
                &&& final(self).in_use(handle.language) == old(self).in_use(
                    handle.language,
                ).push(handle)
                &&& forall|i: int|
                    0 <= i < LANGUAGE_COUNT && i != handle.language.spec_index() ==> final(self).lane_unchanged(*old(self), i)
            },
    {
        let language = handle.language;
        let idx = language.index();
        let ghost li = idx as int;
        let ghost prev = *self;
        let under_cap = self.count_for(language) < self.max_pool_size;
        let fresh = !self.is_tracked(handle.id.as_str());
        if under_cap && fresh {
            let ghost h = handle;
            let mut lane = self.lanes.remove(idx);
            lane.in_use.push(handle);
            self.lanes.insert(idx, lane);
            proof {
                assert(self.lanes@ =~= prev.lanes@.update(li, self.lanes@[li]));
                assert(self.available(language) =~= prev.available(language));
                assert(self.in_use(language) =~= prev.in_use(language).push(h));
                assert(self.lane_of(li) =~= prev.lane_of(li).push(h));
                lemma_lane_push_preserves_wf(prev, *self, li, h);
            }
            Ok(())
        } else {
            Err(CompilerError::ContainerCreationFailed)
        }
    }

    /// Returns a checked-out container to the front of the reuse list, so the
    /// next acquire for this language picks it first. Releasing an id that is
    /// no longer checked out — already evicted, or a shared container another
    /// request released first — leaves the inventory unchanged.
    pub fn release(&mut self, language: LanguageId, id: &str)
        requires
            old(self).wf(),
        ensures
            final(self).wf(),
            final(self).max_pool_size == old(self).max_pool_size,
            forall|i: int|
                0 <= i < LANGUAGE_COUNT && i != language.spec_index() ==> final(self).lane_unchanged(*old(self), i),
            final(self).count(language) == old(self).count(language),
            (exists|k: int|
                0 <= k < old(self).in_use(language).len() && (#[trigger] old(self).in_use(
                    language,
                )[k]).id@ == id@) ==> (exists|k: int|
                {
                    &&& 0 <= k < old(self).in_use(language).len()
                    &&& (#[trigger] old(self).in_use(language)[k]).id@ == id@
                    &&& final(self).in_use(language) == old(self).in_use(language).remove(k)
                    &&& final(self).available(language) == seq![
                        old(self).in_use(language)[k],
                    ] + old(self).available(language)
                }),
            (forall|k: int|
                0 <= k < old(self).in_use(language).len() ==> (#[trigger] old(self).in_use(
                    language,
                )[k]).id@ != id@) ==> final(self).lane_unchanged(*old(self), language.spec_index()),
    {
        let idx = language.index();
        let ghost li = idx as int;
        let ghost prev = *self;
        let mut lane = self.lanes.remove(idx);
        let mut k: usize = 0;
        let mut found: bool = false;
        while k < lane.in_use.len()
            invariant_except_break
                k <= lane.in_use@.len(),
                !found,
                forall|k0: int| 0 <= k0 < k ==> (#[trigger] lane.in_use@[k0]).id@ != id@,
            ensures
                found ==> k < lane.in_use@.len() && lane.in_use@[k as int].id@ == id@,
                !found ==> forall|k0: int|
                    0 <= k0 < lane.in_use@.len() ==> (#[trigger] lane.in_use@[k0]).id@ != id@,
            decreases lane.in_use@.len() - k,
        {
            if str_eq(lane.in_use[k].id.as_str(), id) {
                found = true;
                break;
            }
            k = k + 1;
        }
        if found {
            let h = lane.in_use.remove(k);
            lane.available.insert(0, h);
            self.lanes.insert(idx, lane);
            proof {
                let ghost a = prev.available(language).len() as int;
                let ghost n = prev.lane_of(li).len() as int;
                let ghost ki = k as int;
                assert(self.lanes@ =~= prev.lanes@.update(li, self.lanes@[li]));
                assert(self.in_use(language) =~= prev.in_use(language).remove(ki));
                assert(self.available(language) =~= seq![prev.in_use(language)[ki]]
                    + prev.available(language));
                let w = |j: int|
                    if j == 0 {
                        a + ki
                    } else if j <= a {
                        j - 1
                    } else if j - 1 - a < ki {
                        j - 1
                    } else {
                        j
                    };
                assert(self.lane_of(li).len() == n);
                assert forall|j: int| 0 <= j < n implies 0 <= #[trigger] w(j) < n
                    && self.lane_of(li)[j] == prev.lane_of(li)[w(j)] by {
                    if j == 0 {
                        assert(self.lane_of(li)[j] == self.available(language)[0]);
                        assert(prev.lane_of(li)[a + ki] == prev.in_use(language)[ki]);
                    } else if j <= a {
                        assert(self.lane_of(li)[j] == self.available(language)[j]);
                        assert(self.available(language)[j] == prev.available(language)[j - 1]);
                        assert(prev.lane_of(li)[j - 1] == prev.available(language)[j - 1]);
                    } else if j - 1 - a < ki {
                        assert(self.lane_of(li)[j] == self.in_use(language)[j - 1 - a]);
                        assert(self.in_use(language)[j - 1 - a] == prev.in_use(language)[j - 1
                            - a]);
                        assert(prev.lane_of(li)[j - 1] == prev.in_use(language)[j - 1 - a]);
                    } else {
                        assert(self.lane_of(li)[j] == self.in_use(language)[j - 1 - a]);
                        assert(self.in_use(language)[j - 1 - a] == prev.in_use(language)[j - a]);
                        assert(prev.lane_of(li)[j] == prev.in_use(language)[j - a]);
                    }
                }
                assert forall|j1: int, j2: int| 0 <= j1 < j2 < n implies #[trigger] w(j1)
                    != #[trigger] w(j2) by {}
                lemma_lane_reindex_preserves_wf(prev, *self, li, w);
            }
        } else {
            self.lanes.insert(idx, lane);
            proof {
                assert(self.lanes@ =~= prev.lanes@);
                lemma_wf_congruence(prev, *self);
            }
        }
    }

}

/// Two inventories with the same lanes and the same cap are equally
/// well-formed.
proof fn lemma_wf_congruence(a: ContainerInventory, b: ContainerInventory)
    requires
        a.wf(),
        b.lanes@ == a.lanes@,
        b.max_pool_size == a.max_pool_size,
    ensures
        b.wf(),
{
    assert forall|i: int| 0 <= i < LANGUAGE_COUNT implies #[trigger] b.lane_of(i).len()
        <= b.max_pool_size by {
        assert(b.lane_of(i) == a.lane_of(i));
    }
    assert forall|i: int, k: int|
        0 <= i < LANGUAGE_COUNT && 0 <= k < b.lane_of(i).len() implies (#[trigger] b.lane_of(i)[
        k]).language.spec_index() == i by {
        assert(b.lane_of(i) == a.lane_of(i));
    }
    assert forall|i1: int, k1: int, i2: int, k2: int|
        0 <= i1 < LANGUAGE_COUNT && 0 <= k1 < b.lane_of(i1).len() && 0 <= i2 < LANGUAGE_COUNT && 0
            <= k2 < b.lane_of(i2).len() && (i1 != i2 || k1 != k2) implies #[trigger] b.id_at(
        i1,
        k1,
    ) != #[trigger] b.id_at(i2, k2) by {
        assert(b.lane_of(i1) == a.lane_of(i1));
        assert(b.lane_of(i2) == a.lane_of(i2));
        assert(b.id_at(i1, k1) == a.id_at(i1, k1));
        assert(b.id_at(i2, k2) == a.id_at(i2, k2));
    }
}

/// After a rotation of one lane — every position holding what the next
/// position held, the first element moving to the back — well-formedness
/// carries over.
proof fn lemma_rotation_preserves_wf(prev: ContainerInventory, cur: ContainerInventory, li: int)
    requires
        prev.wf(),
        0 <= li < LANGUAGE_COUNT,
        cur.lanes@.len() == prev.lanes@.len(),
        cur.max_pool_size == prev.max_pool_size,
        forall|i: int|
            0 <= i < LANGUAGE_COUNT && i != li ==> cur.lane_unchanged(prev, i),
        cur.lane_of(li).len() == prev.lane_of(li).len(),
        forall|k: int|
            0 <= k < prev.lane_of(li).len() ==> #[trigger] cur.lane_of(li)[k] == prev.lane_of(li)[
                if k + 1 < prev.lane_of(li).len() {
                    k + 1
                } else {
                    0
                }
            ],
    ensures
        cur.wf(),
{
    let n = prev.lane_of(li).len() as int;
    assert forall|i: int| 0 <= i < LANGUAGE_COUNT implies #[trigger] cur.lane_of(i).len()
        <= cur.max_pool_size by {
        if i != li {
            assert(cur.lane_unchanged(prev, i));
            assert(cur.lane_of(i) =~= prev.lane_of(i));
        }
    }
    assert forall|i: int, k: int|
        0 <= i < LANGUAGE_COUNT && 0 <= k < cur.lane_of(i).len() implies (#[trigger] cur.lane_of(
        i,
    )[k]).language.spec_index() == i by {
        if i != li {
            assert(cur.lane_unchanged(prev, i));
            assert(cur.lane_of(i) =~= prev.lane_of(i));
        }
    }
    assert forall|i1: int, k1: int, i2: int, k2: int|
        0 <= i1 < LANGUAGE_COUNT && 0 <= k1 < cur.lane_of(i1).len() && 0 <= i2 < LANGUAGE_COUNT
            && 0 <= k2 < cur.lane_of(i2).len() && (i1 != i2 || k1 != k2) implies #[trigger] cur.id_at(
        i1,
        k1,
    ) != #[trigger] cur.id_at(i2, k2) by {
        let m1 = if i1 == li { if k1 + 1 < n { k1 + 1 } else { 0 } } else { k1 };
        let m2 = if i2 == li { if k2 + 1 < n { k2 + 1 } else { 0 } } else { k2 };
        if i1 != li {
            assert(cur.lane_unchanged(prev, i1));
            assert(cur.lane_of(i1) =~= prev.lane_of(i1));
        }
        if i2 != li {
            assert(cur.lane_unchanged(prev, i2));
            assert(cur.lane_of(i2) =~= prev.lane_of(i2));
        }
        assert(cur.id_at(i1, k1) == prev.id_at(i1, m1));
        assert(cur.id_at(i2, k2) == prev.id_at(i2, m2));
        assert(i1 != i2 || m1 != m2);
        assert(prev.id_at(i1, m1) != prev.id_at(i2, m2));
    }
}


/// Appending one handle with a fresh id, of the lane's own language, to a
/// lane with room keeps the inventory well-formed.
proof fn lemma_lane_push_preserves_wf(
    prev: ContainerInventory,
    cur: ContainerInventory,
    li: int,
    h: ContainerHandle,
)
    requires
        prev.wf(),
        0 <= li < LANGUAGE_COUNT,
        cur.lanes@.len() == prev.lanes@.len(),
        cur.max_pool_size == prev.max_pool_size,
        forall|i: int| 0 <= i < LANGUAGE_COUNT && i != li ==> cur.lane_unchanged(prev, i),
        cur.lane_of(li) == prev.lane_of(li).push(h),
        prev.lane_of(li).len() < prev.max_pool_size,
        !prev.tracked_id(h.id@),
        h.language.spec_index() == li,
    ensures
        cur.wf(),
{
    let n = prev.lane_of(li).len() as int;
    assert forall|i: int| 0 <= i < LANGUAGE_COUNT implies #[trigger] cur.lane_of(i).len()
        <= cur.max_pool_size by {
        if i != li {
            assert(cur.lane_unchanged(prev, i));
            assert(cur.lane_of(i) =~= prev.lane_of(i));
        }
    }
    assert forall|i: int, k: int|
        0 <= i < LANGUAGE_COUNT && 0 <= k < cur.lane_of(i).len() implies (#[trigger] cur.lane_of(
        i,
    )[k]).language.spec_index() == i by {
        if i != li {
            assert(cur.lane_unchanged(prev, i));
            assert(cur.lane_of(i) =~= prev.lane_of(i));
        } else if k < n {
            assert(cur.lane_of(li)[k] == prev.lane_of(li)[k]);
        } else {
            assert(cur.lane_of(li)[k] == h);
        }
    }
    assert forall|i: int, k: int|
        0 <= i < LANGUAGE_COUNT && 0 <= k < cur.lane_of(i).len() && !(i == li && k == n) implies (
    #[trigger] cur.id_at(i, k)) != h.id@ by {
        if i != li {
            assert(cur.lane_unchanged(prev, i));
            assert(cur.lane_of(i) =~= prev.lane_of(i));
        } else {
            assert(cur.lane_of(li)[k] == prev.lane_of(li)[k]);
        }
        assert(prev.id_at(i, k) == cur.id_at(i, k));
        if prev.id_at(i, k) == h.id@ {
            assert(prev.tracked_id(h.id@));
        }
    }
    assert forall|i1: int, k1: int, i2: int, k2: int|
        0 <= i1 < LANGUAGE_COUNT && 0 <= k1 < cur.lane_of(i1).len() && 0 <= i2 < LANGUAGE_COUNT
            && 0 <= k2 < cur.lane_of(i2).len() && (i1 != i2 || k1 != k2) implies #[trigger] cur.id_at(
        i1,
        k1,
    ) != #[trigger] cur.id_at(i2, k2) by {
        if i1 == li && k1 == n {
            assert(cur.id_at(i1, k1) == h.id@);
            assert(cur.id_at(i2, k2) != h.id@);
        } else if i2 == li && k2 == n {
            assert(cur.id_at(i2, k2) == h.id@);
            assert(cur.id_at(i1, k1) != h.id@);
        } else {
            if i1 != li {
                assert(cur.lane_unchanged(prev, i1));
                assert(cur.lane_of(i1) =~= prev.lane_of(i1));
            } else {
                assert(cur.lane_of(li)[k1] == prev.lane_of(li)[k1]);
            }
            if i2 != li {
                assert(cur.lane_unchanged(prev, i2));
                assert(cur.lane_of(i2) =~= prev.lane_of(i2));
            } else {
                assert(cur.lane_of(li)[k2] == prev.lane_of(li)[k2]);
            }
            assert(cur.id_at(i1, k1) == prev.id_at(i1, k1));
            assert(cur.id_at(i2, k2) == prev.id_at(i2, k2));
        }
    }
}

/// Replacing one lane with a re-indexing of itself — every new position
/// holding what some old position held, no old position used twice — keeps
/// the inventory well-formed.
proof fn lemma_lane_reindex_preserves_wf(
    prev: ContainerInventory,
    cur: ContainerInventory,
    li: int,
    w: spec_fn(int) -> int,
)
    requires
        prev.wf(),
        0 <= li < LANGUAGE_COUNT,
        cur.lanes@.len() == prev.lanes@.len(),
        cur.max_pool_size == prev.max_pool_size,
        forall|i: int| 0 <= i < LANGUAGE_COUNT && i != li ==> cur.lane_unchanged(prev, i),
        cur.lane_of(li).len() <= prev.lane_of(li).len(),
        forall|k: int|
            0 <= k < cur.lane_of(li).len() ==> 0 <= #[trigger] w(k) < prev.lane_of(li).len(),
        forall|k: int|
            0 <= k < cur.lane_of(li).len() ==> #[trigger] cur.lane_of(li)[k] == prev.lane_of(li)[
                w(k)
            ],
        forall|k1: int, k2: int|
            0 <= k1 < cur.lane_of(li).len() && 0 <= k2 < cur.lane_of(li).len() && k1 != k2
                ==> #[trigger] w(k1) != #[trigger] w(k2),
    ensures
        cur.wf(),
{
    assert forall|i: int| 0 <= i < LANGUAGE_COUNT implies #[trigger] cur.lane_of(i).len()
        <= cur.max_pool_size by {
        if i != li {
            assert(cur.lane_unchanged(prev, i));
            assert(cur.lane_of(i) =~= prev.lane_of(i));
        }
    }
    assert forall|i: int, k: int|
        0 <= i < LANGUAGE_COUNT && 0 <= k < cur.lane_of(i).len() implies (#[trigger] cur.lane_of(
        i,
    )[k]).language.spec_index() == i by {
        if i != li {
            assert(cur.lane_unchanged(prev, i));
            assert(cur.lane_of(i) =~= prev.lane_of(i));
        } else {
            assert(cur.lane_of(li)[k] == prev.lane_of(li)[w(k)]);
        }
    }
    assert forall|i1: int, k1: int, i2: int, k2: int|
        0 <= i1 < LANGUAGE_COUNT && 0 <= k1 < cur.lane_of(i1).len() && 0 <= i2 < LANGUAGE_COUNT
            && 0 <= k2 < cur.lane_of(i2).len() && (i1 != i2 || k1 != k2) implies #[trigger] cur.id_at(
        i1,
        k1,
    ) != #[trigger] cur.id_at(i2, k2) by {
        let m1 = if i1 == li { w(k1) } else { k1 };
        let m2 = if i2 == li { w(k2) } else { k2 };
        if i1 != li {
            assert(cur.lane_unchanged(prev, i1));
            assert(cur.lane_of(i1) =~= prev.lane_of(i1));
        } else {
            assert(cur.lane_of(li)[k1] == prev.lane_of(li)[w(k1)]);
        }
        if i2 != li {
            assert(cur.lane_unchanged(prev, i2));
            assert(cur.lane_of(i2) =~= prev.lane_of(i2));
        } else {
            assert(cur.lane_of(li)[k2] == prev.lane_of(li)[w(k2)]);
        }
        assert(cur.id_at(i1, k1) == prev.id_at(i1, m1));
        assert(cur.id_at(i2, k2) == prev.id_at(i2, m2));
        assert(i1 != i2 || m1 != m2);
        assert(prev.id_at(i1, m1) != prev.id_at(i2, m2));
    }
}


/// The elements of `s` whose flag in `m` is true, in order.
pub open spec fn spec_mask(s: Seq<ContainerHandle>, m: Seq<bool>) -> Seq<ContainerHandle>
    decreases s.len(),
{
    if s.len() == 0 {
        Seq::empty()
    } else {
        let rest = spec_mask(s.drop_last(), m.drop_last());
        if m.last() {
            rest.push(s.last())
        } else {
            rest
        }
    }
}

/// The elements of `s` whose id is not `id`, in order.
pub open spec fn spec_remove_id(s: Seq<ContainerHandle>, id: Seq<char>) -> Seq<ContainerHandle>
    decreases s.len(),
{
    if s.len() == 0 {
        Seq::empty()
    } else {
        let rest = spec_remove_id(s.drop_last(), id);
        if s.last().id@ == id {
            rest
        } else {
            rest.push(s.last())
        }
    }
}

/// Unfolds `spec_mask` by one element at the front of growing prefixes.
proof fn lemma_mask_step(s: Seq<ContainerHandle>, m: Seq<bool>, j: int)
    requires
        s.len() == m.len(),
        0 <= j < s.len(),
    ensures
        m[j] ==> spec_mask(s.take(j + 1), m.take(j + 1)) == spec_mask(s.take(j), m.take(j)).push(
            s[j],
        ),
        !m[j] ==> spec_mask(s.take(j + 1), m.take(j + 1)) == spec_mask(s.take(j), m.take(j)),
{
    assert(s.take(j + 1).drop_last() =~= s.take(j));
    assert(m.take(j + 1).drop_last() =~= m.take(j));
    assert(s.take(j + 1).last() == s[j]);
    assert(m.take(j + 1).last() == m[j]);
}

/// How many flags of `m` are set.
pub open spec fn count_true(m: Seq<bool>) -> int
    decreases m.len(),
{
    if m.len() == 0 {
        0
    } else {
        count_true(m.drop_last()) + if m.last() {
            1int
        } else {
            0int
        }
    }
}

/// The position in the original list of the `p`-th surviving element.
pub open spec fn spec_mask_index(m: Seq<bool>, p: int) -> int
    decreases m.len(),
{
    if m.len() == 0 {
        0
    } else if m.last() && p == count_true(m) - 1 {
        m.len() - 1
    } else {
        spec_mask_index(m.drop_last(), p)
    }
}

/// A mask keeps exactly as many elements as it has set flags.
proof fn lemma_mask_len(s: Seq<ContainerHandle>, m: Seq<bool>)
    requires
        s.len() == m.len(),
    ensures
        spec_mask(s, m).len() == count_true(m),
        count_true(m) <= m.len(),
    decreases s.len(),
{
    if s.len() > 0 {
        lemma_mask_len(s.drop_last(), m.drop_last());
    }
}

/// Each surviving element sits at its source index, the source index is in
/// range with its flag set, and source indices strictly increase.
proof fn lemma_mask_index_props(s: Seq<ContainerHandle>, m: Seq<bool>)
    requires
        s.len() == m.len(),
    ensures
        spec_mask(s, m).len() <= s.len(),
        forall|p: int|
            0 <= p < spec_mask(s, m).len() ==> 0 <= #[trigger] spec_mask_index(m, p) < s.len()
                && m[spec_mask_index(m, p)] && spec_mask(s, m)[p] == s[spec_mask_index(m, p)],
        forall|p1: int, p2: int|
            0 <= p1 < p2 < spec_mask(s, m).len() ==> #[trigger] spec_mask_index(m, p1)
                < #[trigger] spec_mask_index(m, p2),
    decreases s.len(),
{
    lemma_mask_len(s, m);
    if s.len() > 0 {
        let s0 = s.drop_last();
        let m0 = m.drop_last();
        lemma_mask_index_props(s0, m0);
        lemma_mask_len(s0, m0);
        let rest = spec_mask(s0, m0);
        let cur = spec_mask(s, m);
        assert forall|p: int| 0 <= p < cur.len() implies 0 <= #[trigger] spec_mask_index(m, p)
            < s.len() && m[spec_mask_index(m, p)] && cur[p] == s[spec_mask_index(m, p)] by {
            if m.last() && p == count_true(m) - 1 {
                assert(spec_mask_index(m, p) == s.len() - 1);
                assert(cur[p] == s.last());
            } else {
                assert(p < rest.len());
                assert(spec_mask_index(m, p) == spec_mask_index(m0, p));
                assert(cur[p] == rest[p]);
                assert(s[spec_mask_index(m0, p)] == s0[spec_mask_index(m0, p)]);
                assert(m[spec_mask_index(m0, p)] == m0[spec_mask_index(m0, p)]);
            }
        }
        assert forall|p1: int, p2: int| 0 <= p1 < p2 < cur.len() implies #[trigger] spec_mask_index(
            m,
            p1,
        ) < #[trigger] spec_mask_index(m, p2) by {
            if m.last() && p2 == count_true(m) - 1 {
                assert(spec_mask_index(m, p2) == s.len() - 1);
                assert(p1 < rest.len());
                assert(spec_mask_index(m, p1) == spec_mask_index(m0, p1));
                assert(spec_mask_index(m0, p1) < s0.len());
            } else {
                assert(p2 < rest.len());
                assert(spec_mask_index(m, p1) == spec_mask_index(m0, p1));
                assert(spec_mask_index(m, p2) == spec_mask_index(m0, p2));
            }
        }
    }
}

/// Masking both lists of one lane replaces the lane with a re-indexing of
/// itself, so well-formedness carries over.
proof fn lemma_two_masks_preserve_wf(
    prev: ContainerInventory,
    cur: ContainerInventory,
    li: int,
    m_avail: Seq<bool>,
    m_used: Seq<bool>,
)
    requires
        prev.wf(),
        0 <= li < LANGUAGE_COUNT,
        cur.lanes@.len() == prev.lanes@.len(),
        cur.max_pool_size == prev.max_pool_size,
        forall|i: int| 0 <= i < LANGUAGE_COUNT && i != li ==> cur.lane_unchanged(prev, i),
        prev.lanes@[li].available@.len() == m_avail.len(),
        prev.lanes@[li].in_use@.len() == m_used.len(),
        cur.lanes@[li].available@ == spec_mask(prev.lanes@[li].available@, m_avail),
        cur.lanes@[li].in_use@ == spec_mask(prev.lanes@[li].in_use@, m_used),
    ensures
        cur.wf(),
{
    let prev_avail = prev.lanes@[li].available@;
    let prev_used = prev.lanes@[li].in_use@;
    let ka = spec_mask(prev_avail, m_avail);
    let ku = spec_mask(prev_used, m_used);
    let a = prev_avail.len() as int;
    lemma_mask_index_props(prev_avail, m_avail);
    lemma_mask_index_props(prev_used, m_used);
    let w = |j: int|
        if j < ka.len() {
            spec_mask_index(m_avail, j)
        } else {
            a + spec_mask_index(m_used, j - ka.len())
        };
    assert(cur.lane_of(li).len() == ka.len() + ku.len());
    assert forall|k: int| 0 <= k < cur.lane_of(li).len() implies 0 <= #[trigger] w(k)
        < prev.lane_of(li).len() && cur.lane_of(li)[k] == prev.lane_of(li)[w(k)] by {
        if k < ka.len() {
            assert(cur.lane_of(li)[k] == ka[k]);
            assert(ka[k] == prev_avail[spec_mask_index(m_avail, k)]);
            assert(prev.lane_of(li)[w(k)] == prev_avail[spec_mask_index(m_avail, k)]);
        } else {
            assert(cur.lane_of(li)[k] == ku[k - ka.len()]);
            assert(ku[k - ka.len()] == prev_used[spec_mask_index(m_used, k - ka.len())]);
            assert(prev.lane_of(li)[w(k)] == prev_used[spec_mask_index(m_used, k - ka.len())]);
        }
    }
    assert forall|k1: int, k2: int|
        0 <= k1 < cur.lane_of(li).len() && 0 <= k2 < cur.lane_of(li).len() && k1 != k2
            implies #[trigger] w(k1) != #[trigger] w(k2) by {
        if k1 < ka.len() && k2 < ka.len() {
            if k1 < k2 {
                assert(spec_mask_index(m_avail, k1) < spec_mask_index(m_avail, k2));
            } else {
                assert(spec_mask_index(m_avail, k2) < spec_mask_index(m_avail, k1));
            }
        } else if k1 >= ka.len() && k2 >= ka.len() {
            if k1 < k2 {
                assert(spec_mask_index(m_used, k1 - ka.len()) < spec_mask_index(
                    m_used,
                    k2 - ka.len(),
                ));
            } else {
                assert(spec_mask_index(m_used, k2 - ka.len()) < spec_mask_index(
                    m_used,
                    k1 - ka.len(),
                ));
            }
        }
    }
    lemma_lane_reindex_preserves_wf(prev, cur, li, w);
}

/// A mask whose flag at every position says "the id differs" selects exactly
/// what removing the id keeps.
proof fn lemma_mask_matches_remove(s: Seq<ContainerHandle>, m: Seq<bool>, id: Seq<char>)
    requires
        s.len() == m.len(),
        forall|j: int| 0 <= j < s.len() ==> m[j] == ((#[trigger] s[j]).id@ != id),
    ensures
        spec_mask(s, m) == spec_remove_id(s, id),
    decreases s.len(),
{
    if s.len() > 0 {
        lemma_mask_matches_remove(s.drop_last(), m.drop_last(), id);
        assert(s.last() == s[s.len() - 1]);
    }
}

/// Everything that removing an id keeps carries a different id.
proof fn lemma_remove_id_all_differ(s: Seq<ContainerHandle>, id: Seq<char>)
    ensures
        forall|p: int|
            0 <= p < spec_remove_id(s, id).len() ==> (#[trigger] spec_remove_id(s, id)[p]).id@
                != id,
    decreases s.len(),
{
    if s.len() > 0 {
        lemma_remove_id_all_differ(s.drop_last(), id);
    }
}

/// Keeps the elements of `v` whose flag is true, in order.
fn filter_by_mask(v: Vec<ContainerHandle>, mask: &Vec<bool>) -> (r: Vec<ContainerHandle>)
    requires
        v@.len() == mask@.len(),
    ensures
        r@ == spec_mask(v@, mask@),
{
    let ghost orig = v@;
    let mut v = v;
    let total = mask.len();
    let mut r: Vec<ContainerHandle> = Vec::new();
    let mut j: usize = 0;
    proof {
        assert(r@ =~= spec_mask(orig.take(0), mask@.take(0)));
        assert(v@ =~= orig.skip(0));
    }
    while v.len() > 0
        invariant
            total == orig.len(),
            j + v@.len() == orig.len(),
            orig.len() == mask@.len(),
            j <= orig.len(),
            v@ == orig.skip(j as int),
            r@ == spec_mask(orig.take(j as int), mask@.take(j as int)),
        decreases v@.len(),
    {
        let h = v.remove(0);
        proof {
            assert(orig.skip(j as int)[0] == orig[j as int]);
            assert(orig.skip(j as int).remove(0) =~= orig.skip(j as int + 1));
            lemma_mask_step(orig, mask@, j as int);
        }
        if mask[j] {
            r.push(h);
        }
        j = j + 1;
    }
    proof {
        assert(orig.take(orig.len() as int) =~= orig);
        assert(mask@.take(mask@.len() as int) =~= mask@);
    }
    r
}

/// A flag per element: its id differs from `id`.
fn mask_not_id(v: &Vec<ContainerHandle>, id: &str) -> (r: Vec<bool>)
    ensures
        r@.len() == v@.len(),
        forall|j: int| 0 <= j < v@.len() ==> r@[j] == ((#[trigger] v@[j]).id@ != id@),
{
    let mut r: Vec<bool> = Vec::new();
    let mut j: usize = 0;
    while j < v.len()
        invariant
            j <= v@.len(),
            r@.len() == j,
            forall|k: int| 0 <= k < j ==> r@[k] == ((#[trigger] v@[k]).id@ != id@),
        decreases v@.len() - j,
    {
        r.push(!str_eq(v[j].id.as_str(), id));
        j = j + 1;
    }
    r
}

/// Clones the ids of a list of handles, in order.
fn clone_ids(v: &Vec<ContainerHandle>) -> (r: Vec<String>)
    ensures
        r@.len() == v@.len(),
        forall|k: int| 0 <= k < r@.len() ==> #[trigger] r@[k]@ == v@[k].id@,
{
    let mut r: Vec<String> = Vec::new();
    let mut j: usize = 0;
    while j < v.len()
        invariant
            j <= v@.len(),
            r@.len() == j,
            forall|k: int| 0 <= k < j ==> #[trigger] r@[k]@ == v@[k].id@,
        decreases v@.len() - j,
    {
        r.push(v[j].id.clone());
        j = j + 1;
    }
    r
}


/// Pool cap invariant: in a well-formed inventory — the state the
/// constructor establishes and every operation preserves — the number of
/// tracked containers of any language never exceeds the configured pool
/// size, whatever sequence of acquires, registrations and releases led
/// here.
pub proof fn lemma_pool_cap(inv: ContainerInventory, language: LanguageId)
    requires
        inv.wf(),
    ensures
        inv.count(language) <= inv.max_pool_size,
{
    assert(inv.lane_of(language.spec_index()).len() <= inv.max_pool_size);
}

/// Reuse before create: after a checked-out handle is released — the state
/// change `release` promises — the lane's reuse list is non-empty and its
/// front is that very handle, so by `acquire`'s contract the next acquire
/// for this language checks the released handle out again instead of
/// creating a new container.
pub proof fn lemma_reuse_before_create(
    before: ContainerInventory,
    after: ContainerInventory,
    language: LanguageId,
    k: int,
)
    requires
        before.wf(),
        0 <= k < before.in_use(language).len(),
        after.in_use(language) == before.in_use(language).remove(k),
        after.available(language) == seq![before.in_use(language)[k]] + before.available(language),
    ensures
        after.available(language).len() > 0,
        after.available(language)[0] == before.in_use(language)[k],
{
}

} // verus!
