//! Append-only table of texture resources addressed by 1-based integer handles.

use vstd::prelude::*;

verus! {

/// The resource that handle `id` names in `resources`: handles are 1-based, and
/// zero or a negative value names nothing.
pub open spec fn resolve<T>(resources: Seq<T>, id: int) -> Option<T> {
    if 1 <= id && id <= resources.len() {
        Some(resources[id - 1])
    } else {
        None
    }
}

/// The table after one `add` of `x` to a table holding `s`, and the handle
/// that call returns.
pub open spec fn add_spec<T>(s: Seq<T>, x: T) -> (Seq<T>, int) {
    (s.push(x), s.len() + 1int)
}

/// The table after adding `items` one at a time, in order, to an empty table,
/// and the handles those calls returned.
pub open spec fn adds<T>(items: Seq<T>) -> (Seq<T>, Seq<int>)
    decreases items.len(),
{
    if items.len() == 0 {
        (Seq::empty(), Seq::empty())
    } else {
        let (s, hs) = adds(items.drop_last());
        let (t, h) = add_spec(s, items.last());
        (t, hs.push(h))
    }
}

/// Adding `items` one at a time to an empty table hands out the handles
/// `1..=N` in call order; handle `k` then names the `k`-th item added, and the
/// handles `0` and `N + 1` name nothing.
pub proof fn lemma_handles_in_call_order<T>(items: Seq<T>)
    ensures
        adds(items).0 == items,
        adds(items).1.len() == items.len(),
        forall|i: int| 0 <= i < items.len() ==> #[trigger] adds(items).1[i] == i + 1,
        forall|k: int|
            1 <= k <= items.len() ==> #[trigger] resolve(adds(items).0, k) == Some(items[k - 1]),
        resolve(adds(items).0, 0) is None,
        resolve(adds(items).0, items.len() + 1int) is None,
    decreases items.len(),
{
    if items.len() > 0 {
        lemma_handles_in_call_order(items.drop_last());
        assert(items.drop_last().push(items.last()) == items);
    }
}

/// The textures registered with a drawer, in the order they were added.
pub struct TextureRegistry<T> {
    resources: Vec<T>,
}

impl<T> View for TextureRegistry<T> {
    type V = Seq<T>;

    closed spec fn view(&self) -> Seq<T> {
        self.resources@
    }
}

impl<T> TextureRegistry<T> {
    /// An empty table with room reserved for `capacity` resources.
    pub fn new(capacity: usize) -> (r: Self)
        ensures
            r@ == Seq::<T>::empty(),
    {
        TextureRegistry { resources: Vec::with_capacity(capacity) }
    }

    /// Number of registered resources; also the largest valid handle.
    pub fn len(&self) -> (r: usize)
        ensures
            r == self@.len(),
    {
        self.resources.len()
    }

    /// Appends `resource` and returns its handle, one more than the number of
    /// resources registered before.
    pub fn add(&mut self, resource: T) -> (r: i32)
        requires
            old(self)@.len() < i32::MAX,
        ensures
            (final(self)@, r as int) == add_spec(old(self)@, resource),
            resolve(final(self)@, r as int) == Some(resource),
    {
        self.resources.push(resource);
        self.resources.len() as i32
    }

    /// The resource that handle `id` names, or `None` when `id` is not a handle
    /// this table gave out.
    pub fn find_res(&self, id: i32) -> (r: Option<&T>)
        ensures
            r is Some == resolve(self@, id as int) is Some,
            r is Some ==> Some(*r->Some_0) == resolve(self@, id as int),
    {
        if id > 0 && id as usize <= self.resources.len() {
            Some(&self.resources[(id - 1) as usize])
        } else {
            None
        }
    }
}

} // verus!
