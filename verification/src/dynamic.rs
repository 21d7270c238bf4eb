//! Slot management for the dynamic models of a scene: models added at run
//! time, each occupying as many GPU instances as it has cubes.
use vstd::prelude::*;

verus! {

/// Total number of instances that the live slots occupy.
pub open spec fn used<M>(s: Seq<Option<(M, usize)>>) -> nat
    decreases s.len(),
{
    if s.len() == 0 {
        0
    } else {
        used(s.drop_last()) + match s.last() {
            Some(p) => p.1 as nat,
            None => 0,
        }
    }
}

/// Index of the first free slot, if any.
pub open spec fn first_free<M>(s: Seq<Option<(M, usize)>>, i: int) -> bool {
    &&& 0 <= i < s.len()
    &&& s[i] is None
    &&& forall|j: int| 0 <= j < i ==> #[trigger] s[j] is Some
}

/// Replacing slot `i` changes the total by the difference of the two counts.
pub proof fn lemma_used_update<M>(s: Seq<Option<(M, usize)>>, i: int, x: Option<(M, usize)>)
    requires
        0 <= i < s.len(),
    ensures
        used(s.update(i, x)) + match s[i] {
            Some(p) => p.1 as nat,
            None => 0,
        } == used(s) + match x {
            Some(p) => p.1 as nat,
            None => 0,
        },
    decreases s.len(),
{
    let t = s.update(i, x);
    if i == s.len() - 1 {
        assert(t.drop_last() =~= s.drop_last());
    } else {
        lemma_used_update(s.drop_last(), i, x);
        assert(t.drop_last() =~= s.drop_last().update(i, x));
    }
}

/// Appending a slot adds its count.
pub proof fn lemma_used_push<M>(s: Seq<Option<(M, usize)>>, x: Option<(M, usize)>)
    ensures
        used(s.push(x)) == used(s) + match x {
            Some(p) => p.1 as nat,
            None => 0,
        },
{
    assert(s.push(x).drop_last() =~= s);
}

/// The total of a prefix is at most the total of the whole.
pub proof fn lemma_used_prefix<M>(s: Seq<Option<(M, usize)>>, k: int)
    requires
        0 <= k <= s.len(),
    ensures
        used(s.subrange(0, k)) <= used(s),
    decreases s.len() - k,
{
    if k < s.len() {
        lemma_used_prefix(s, k + 1);
        assert(s.subrange(0, k + 1).drop_last() =~= s.subrange(0, k));
    } else {
        assert(s.subrange(0, k) =~= s);
    }
}

/// The slots built from the models and their cube counts: slot `i` holds
/// model `i` with count `i` when model `i` is present.
pub open spec fn zip_slots<M>(models: Seq<Option<M>>, counts: Seq<usize>) -> Seq<Option<(M, usize)>> {
    Seq::new(
        models.len(),
        |i: int|
            match models[i] {
                Some(m) => Some((m, counts[i])),
                None => None,
            },
    )
}

/// The dynamic models of a scene, in slots that keep their index for the
/// model's lifetime; a freed slot is reused by the next model added.
pub struct DynamicScene<M> {
    models: Vec<Option<M>>,
    counts: Vec<usize>,
    max_instances: usize,
    live_instance_count: u32,
    dirty: bool,
}

impl<M> DynamicScene<M> {
    /// Every model has its cube count, and the live models hold no more
    /// cubes than the capacity.
    #[verifier::type_invariant]
    closed spec fn wf(&self) -> bool {
        &&& self.counts@.len() >= self.models@.len()
        &&& used(self.slots()) <= self.max_instances
    }

    /// The slots: each is empty or holds a model and its cube count.
    pub closed spec fn slots(&self) -> Seq<Option<(M, usize)>> {
        zip_slots(self.models@, self.counts@)
    }

    /// The cap on the total cube count of the live models.
    pub closed spec fn capacity(&self) -> usize {
        self.max_instances
    }

    /// Instance count of the last upload.
    pub closed spec fn uploaded_count(&self) -> u32 {
        self.live_instance_count
    }

    /// Whether something changed since the last upload.
    pub closed spec fn is_dirty(&self) -> bool {
        self.dirty
    }

    /// An empty scene whose live models may hold up to `max_instances` cubes.
    pub fn new(max_instances: usize) -> (r: Self)
        ensures
            r.slots().len() == 0,
            r.capacity() == max_instances,
            r.uploaded_count() == 0,
            !r.is_dirty(),
    {
        let r = DynamicScene {
            models: Vec::new(),
            counts: Vec::new(),
            max_instances,
            live_instance_count: 0,
            dirty: false,
        };
        assert(r.slots() =~= Seq::<Option<(M, usize)>>::empty());
        r
    }

    /// The cap given at creation.
    pub fn max_instances(&self) -> (r: usize)
        ensures
            r == self.capacity(),
    {
        self.max_instances
    }

    /// Number of slots, live or free.
    pub fn slot_count(&self) -> (r: usize)
        ensures
            r == self.slots().len(),
    {
        self.models.len()
    }

    /// Total cube count of the live models.
    pub fn used_instances(&self) -> (r: usize)
        ensures
            r == used(self.slots()),
            r <= self.capacity(),
    {
        proof {
            use_type_invariant(self);
        }
        let ghost slots = self.slots();
        let mut total: usize = 0;
        let mut i: usize = 0;
        while i < self.models.len()
            invariant
                i <= self.models@.len(),
                slots == self.slots(),
                self.counts@.len() >= self.models@.len(),
                total == used(slots.subrange(0, i as int)),
                used(slots) <= self.max_instances,
            decreases self.models@.len() - i,
        {
            proof {
                lemma_used_prefix(slots, i + 1);
                assert(slots.subrange(0, i + 1).drop_last() =~= slots.subrange(0, i as int));
            }
            match &self.models[i] {
                Some(_) => {
                    total = total + self.counts[i];
                },
                None => {},
            }
            i = i + 1;
        }
        assert(slots.subrange(0, slots.len() as int) =~= slots);
        total
    }

    /// Adds a model of `cube_count` cubes and returns its id: the first free
    /// slot, or a new slot at the end when none is free.
    pub fn add(&mut self, model: M, cube_count: usize) -> (r: usize)
        requires
            used(old(self).slots()) + cube_count <= old(self).capacity(),
        ensures
            (exists|i: int| first_free(old(self).slots(), i)) ==> {
                &&& first_free(old(self).slots(), r as int)
                &&& final(self).slots() == old(self).slots().update(r as int, Some((model, cube_count)))
            },
            (forall|i: int| 0 <= i < old(self).slots().len() ==> #[trigger] old(self).slots()[i] is Some) ==> {
                &&& r == old(self).slots().len()
                &&& final(self).slots() == old(self).slots().push(Some((model, cube_count)))
            },
            final(self).capacity() == old(self).capacity(),
            final(self).uploaded_count() == old(self).uploaded_count(),
            final(self).is_dirty(),
    {
        proof {
            use_type_invariant(&*self);
        }
        let ghost before = self.slots();
        let mut i: usize = 0;
        while i < self.models.len()
            invariant
                i <= self.models@.len(),
                before == self.slots(),
                before == old(self).slots(),
                self.counts@.len() >= self.models@.len(),
                self.max_instances == old(self).max_instances,
                self.live_instance_count == old(self).live_instance_count,
                used(before) + cube_count <= self.max_instances,
                forall|j: int| 0 <= j < i ==> #[trigger] before[j] is Some,
            decreases self.models@.len() - i,
        {
            if self.models[i].is_none() {
                assert(before[i as int] is None);
                let mut models: Vec<Option<M>> = Vec::new();
                std::mem::swap(&mut models, &mut self.models);
                let mut counts: Vec<usize> = Vec::new();
                std::mem::swap(&mut counts, &mut self.counts);
                models.set(i, Some(model));
                counts.set(i, cube_count);
                proof {
                    assert(zip_slots(models@, counts@) =~= before.update(i as int, Some((model, cube_count))));
                    lemma_used_update(before, i as int, Some((model, cube_count)));
                }
                self.counts = counts;
                self.models = models;
                self.dirty = true;
                return i;
            }
            assert(before[i as int] is Some);
            i = i + 1;
        }
        let id = self.models.len();
        let mut models: Vec<Option<M>> = Vec::new();
        std::mem::swap(&mut models, &mut self.models);
        let mut counts: Vec<usize> = Vec::new();
        std::mem::swap(&mut counts, &mut self.counts);
        counts.truncate(id);
        models.push(Some(model));
        counts.push(cube_count);
        proof {
            assert(zip_slots(models@, counts@) =~= before.push(Some((model, cube_count))));
            lemma_used_push(before, Some((model, cube_count)));
        }
        self.counts = counts;
        self.models = models;
        self.dirty = true;
        id
    }

    /// Frees slot `id` if it holds a model; out-of-range or free ids are
    /// ignored.
    pub fn remove(&mut self, id: usize)
        ensures
            id < old(self).slots().len() && old(self).slots()[id as int] is Some ==> {
                &&& final(self).slots() == old(self).slots().update(id as int, None)
                &&& final(self).is_dirty()
            },
            !(id < old(self).slots().len() && old(self).slots()[id as int] is Some) ==> {
                &&& final(self).slots() == old(self).slots()
                &&& final(self).is_dirty() == old(self).is_dirty()
            },
            final(self).capacity() == old(self).capacity(),
            final(self).uploaded_count() == old(self).uploaded_count(),
    {
        proof {
            use_type_invariant(&*self);
        }
        if id < self.models.len() && self.models[id].is_some() {
            let ghost before = self.slots();
            let mut models: Vec<Option<M>> = Vec::new();
            std::mem::swap(&mut models, &mut self.models);
            models.set(id, None);
            proof {
                assert(zip_slots(models@, self.counts@) =~= before.update(id as int, None));
                lemma_used_update(before, id as int, None);
            }
            self.models = models;
            self.dirty = true;
        }
    }

    /// The model in slot `id`, if that slot exists and is live.
    pub fn get(&self, id: usize) -> (r: Option<&M>)
        ensures
            id < self.slots().len() && self.slots()[id as int] is Some ==> r == Some(
                &self.slots()[id as int]->Some_0.0,
            ),
            !(id < self.slots().len() && self.slots()[id as int] is Some) ==> r is None,
    {
        if id < self.models.len() {
            match &self.models[id] {
                Some(m) => Some(m),
                None => None,
            }
        } else {
            None
        }
    }

    /// Mutable access to the model in slot `id`, if that slot exists and is
    /// live; marks the scene changed so that the next upload happens.
    pub fn get_mut(&mut self, id: usize) -> (r: Option<&mut M>)
        ensures
            id < old(self).slots().len() && old(self).slots()[id as int] is Some ==> {
                &&& r matches Some(m) && *m == old(self).slots()[id as int]->Some_0.0
                &&& final(self).slots() == old(self).slots().update(
                    id as int,
                    Some((*final(r->Some_0), old(self).slots()[id as int]->Some_0.1)),
                )
                &&& final(self).is_dirty()
            },
            !(id < old(self).slots().len() && old(self).slots()[id as int] is Some) ==> {
                &&& r is None
                &&& final(self).slots() == old(self).slots()
                &&& final(self).is_dirty() == old(self).is_dirty()
            },
            final(self).capacity() == old(self).capacity(),
            final(self).uploaded_count() == old(self).uploaded_count(),
    {
        proof {
            use_type_invariant(&*self);
        }
        if id < self.models.len() && self.models[id].is_some() {
            self.dirty = true;
            proof {
                let before = self.slots();
                let c = self.counts@[id as int];
                assert forall|e: Option<M>| #[trigger] used(zip_slots(self.models@.update(id as int, e), self.counts@))
                    <= self.max_instances by {
                    let x = match e {
                        Some(m) => Some((m, c)),
                        None => None,
                    };
                    assert(zip_slots(self.models@.update(id as int, e), self.counts@) =~= before.update(id as int, x));
                    lemma_used_update(before, id as int, x);
                }
            }
            let slot = &mut self.models[id];
            match slot {
                Some(m) => Some(m),
                None => None,
            }
        } else {
            None
        }
    }

    /// Decides the upload of the frame: when something changed since the
    /// last upload, records the total cube count of the live models (cast to
    /// `u32`) as the new instance count, clears the change flag and returns
    /// true; otherwise changes nothing and returns false.
    pub fn update_gpu(&mut self) -> (r: bool)
        ensures
            r == old(self).is_dirty(),
            final(self).slots() == old(self).slots(),
            final(self).capacity() == old(self).capacity(),
            !final(self).is_dirty(),
            r ==> final(self).uploaded_count() == used(old(self).slots()) as u32,
            !r ==> final(self).uploaded_count() == old(self).uploaded_count(),
    {
        proof {
            use_type_invariant(&*self);
        }
        if !self.dirty {
            return false;
        }
        let total = self.used_instances();
        self.live_instance_count = total as u32;
        self.dirty = false;
        true
    }

    /// Instance count of the last upload.
    pub fn live_count(&self) -> (r: u32)
        ensures
            r == self.uploaded_count(),
    {
        self.live_instance_count
    }
}

/// A freed slot is the one the next model takes, when the slots before it
/// are all live: ids are reused before the list grows.
pub proof fn law_freed_slot_reused<M>(s: Seq<Option<(M, usize)>>, id: int)
    requires
        0 <= id < s.len(),
        forall|j: int| 0 <= j < id ==> #[trigger] s[j] is Some,
    ensures
        first_free(s.update(id, None), id),
{
    assert forall|j: int| 0 <= j < id implies #[trigger] s.update(id, None)[j] is Some by {
        assert(s.update(id, None)[j] == s[j]);
    }
}

/// The slot a model was added to holds it, with its cube count, and the
/// live models hold that many more cubes.
pub proof fn law_added_model_is_live<M>(s: Seq<Option<(M, usize)>>, id: int, m: M, count: usize)
    requires
        first_free(s, id),
    ensures
        s.update(id, Some((m, count)))[id] == Some((m, count)),
        used(s.update(id, Some((m, count)))) == used(s) + count,
{
    lemma_used_update(s, id, Some((m, count)));
}

/// Freeing a live slot releases exactly its cubes.
pub proof fn law_remove_releases_cubes<M>(s: Seq<Option<(M, usize)>>, id: int)
    requires
        0 <= id < s.len(),
        s[id] is Some,
    ensures
        used(s.update(id, None)) + s[id]->Some_0.1 == used(s),
{
    lemma_used_update(s, id, None);
}

} // verus!
