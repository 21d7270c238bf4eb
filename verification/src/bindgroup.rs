//! The resources of a GPU bind group, by binding slot, and the builder that
//! collects them with their layout entries.
use std::collections::HashMap;
use vstd::prelude::*;

verus! {

broadcast use vstd::std_specs::hash::group_hash_axioms;

/// A resource bound at a slot: a buffer, a texture view or a sampler.
pub enum WrappedResource<B, V, S> {
    Buffer(B),
    TextureView(V),
    Sampler(S),
}

/// The resources of a bind group, by binding slot.
pub struct BindGroupResources<B, V, S> {
    resources: HashMap<u32, WrappedResource<B, V, S>>,
}

impl<B, V, S> View for BindGroupResources<B, V, S> {
    type V = Map<u32, WrappedResource<B, V, S>>;

    closed spec fn view(&self) -> Map<u32, WrappedResource<B, V, S>> {
        self.resources@
    }
}

impl<B, V, S> BindGroupResources<B, V, S> {
    /// No resource bound.
    pub fn new() -> (r: Self)
        ensures
            r@ == Map::<u32, WrappedResource<B, V, S>>::empty(),
    {
        BindGroupResources { resources: HashMap::new() }
    }

    /// Binds `resource` at `binding`, replacing what was bound there.
    pub fn insert(&mut self, binding: u32, resource: WrappedResource<B, V, S>)
        ensures
            final(self)@ == old(self)@.insert(binding, resource),
    {
        self.resources.insert(binding, resource);
    }

    /// The resource bound at `binding`, if any.
    pub fn data(&self, binding: u32) -> (r: Option<&WrappedResource<B, V, S>>)
        ensures
            r is Some <==> self@.contains_key(binding),
            r matches Some(x) ==> *x == self@[binding],
    {
        self.resources.get(&binding)
    }

    /// The buffer bound at `binding`; none when nothing or something other
    /// than a buffer is bound there.
    pub fn get_buffer(&self, binding: u32) -> (r: Option<&B>)
        ensures
            r is Some <==> (self@.contains_key(binding) && self@[binding] is Buffer),
            r matches Some(b) ==> *b == self@[binding]->Buffer_0,
    {
        match self.data(binding) {
            Some(WrappedResource::Buffer(b)) => Some(b),
            _ => None,
        }
    }
}

/// Collects the resources of a bind group and its layout entries (of type
/// `L`), in the order they are added.
pub struct BindGroupBuilder<B, V, S, L> {
    resources: BindGroupResources<B, V, S>,
    layout_entries: Vec<L>,
}

impl<B, V, S, L> BindGroupBuilder<B, V, S, L> {
    /// The resources collected so far.
    pub closed spec fn resources(&self) -> Map<u32, WrappedResource<B, V, S>> {
        self.resources@
    }

    /// The layout entries collected so far, in order.
    pub closed spec fn entries(&self) -> Seq<L> {
        self.layout_entries@
    }

    /// An empty builder.
    pub fn new() -> (r: Self)
        ensures
            r.resources() == Map::<u32, WrappedResource<B, V, S>>::empty(),
            r.entries() == Seq::<L>::empty(),
    {
        BindGroupBuilder { resources: BindGroupResources::new(), layout_entries: Vec::new() }
    }

    /// Adds a resource at `binding` (replacing an earlier one there) and
    /// appends its layout entry (an earlier entry for the slot stays).
    pub fn add(self, binding: u32, resource: WrappedResource<B, V, S>, entry: L) -> (r: Self)
        ensures
            r.resources() == self.resources().insert(binding, resource),
            r.entries() == self.entries().push(entry),
    {
        let mut b = self;
        b.resources.insert(binding, resource);
        b.layout_entries.push(entry);
        b
    }

    /// Adds a buffer (a uniform buffer) at `binding`.
    pub fn add_buffer(self, binding: u32, buffer: B, entry: L) -> (r: Self)
        ensures
            r.resources() == self.resources().insert(binding, WrappedResource::Buffer(buffer)),
            r.entries() == self.entries().push(entry),
    {
        self.add(binding, WrappedResource::Buffer(buffer), entry)
    }

    /// Adds a texture view (2D, cube or storage texture) at `binding`.
    pub fn add_texture_view(self, binding: u32, view: V, entry: L) -> (r: Self)
        ensures
            r.resources() == self.resources().insert(binding, WrappedResource::TextureView(view)),
            r.entries() == self.entries().push(entry),
    {
        self.add(binding, WrappedResource::TextureView(view), entry)
    }

    /// Adds a sampler at `binding`.
    pub fn add_sampler(self, binding: u32, sampler: S, entry: L) -> (r: Self)
        ensures
            r.resources() == self.resources().insert(binding, WrappedResource::Sampler(sampler)),
            r.entries() == self.entries().push(entry),
    {
        self.add(binding, WrappedResource::Sampler(sampler), entry)
    }

    /// The collected resources and layout entries.
    pub fn finish(self) -> (r: (BindGroupResources<B, V, S>, Vec<L>))
        ensures
            r.0@ == self.resources(),
            r.1@ == self.entries(),
    {
        (self.resources, self.layout_entries)
    }
}

/// What a bind group gives back at a slot is what was last bound there;
/// binding a slot leaves the other slots as they were.
pub proof fn law_read_after_bind<B, V, S>(
    m: Map<u32, WrappedResource<B, V, S>>,
    binding: u32,
    resource: WrappedResource<B, V, S>,
    other: u32,
)
    ensures
        m.insert(binding, resource).contains_key(binding),
        m.insert(binding, resource)[binding] == resource,
        other != binding ==> (m.insert(binding, resource).contains_key(other) == m.contains_key(other)),
        other != binding && m.contains_key(other) ==> m.insert(binding, resource)[other] == m[other],
{
}

} // verus!
