//! The bounded store of rendered pages.
//!
//! Pages leave in the order in which they were inserted once the byte budget
//! is reached. A page that became stale stays until its replacement arrives.

use crate::image::Image;
use std::collections::HashMap;
use std::collections::HashSet;
use std::collections::VecDeque;
use vstd::prelude::*;

verus! {

broadcast use {vstd::std_specs::hash::group_hash_axioms, vstd::std_specs::vecdeque::group_vec_dequeue_axioms};

/// Store of rendered pages under a byte budget.
pub struct ImageRegistry {
    held: HashMap<usize, Image>,
    invalidated: HashSet<usize>,
    scheduled: HashSet<usize>,
    memory_used: u128,
    insertion_order: VecDeque<usize>,
    memory_limit: usize,
}

/// Mathematical content of an [`ImageRegistry`].
pub struct RegistryView {
    /// The image held for each page.
    pub held: Map<usize, Image>,
    /// Pages whose image is stale and awaits replacement.
    pub invalidated: Set<usize>,
    /// Pages with a render request in flight.
    pub scheduled: Set<usize>,
    /// Bytes occupied by the held images.
    pub memory_used: int,
    /// Pages in the order of their insertion, oldest first.
    pub insertion_order: Seq<usize>,
    /// The byte budget.
    pub memory_limit: int,
}

/// Sum of the sizes of the images in `held`.
pub open spec fn total_size(held: Map<usize, Image>) -> int
    decreases held.dom().len(),
    when held.dom().finite()
{
    if held.dom().len() == 0 {
        0
    } else {
        let page = held.dom().choose();
        held[page]@.data.len() + total_size(held.remove(page))
    }
}

/// Taking one image out lowers the sum by its size.
pub proof fn lemma_total_size_remove(held: Map<usize, Image>, page: usize)
    requires
        held.dom().finite(),
        held.contains_key(page),
    ensures
        total_size(held) == held[page]@.data.len() + total_size(held.remove(page)),
        total_size(held.remove(page)) >= 0,
    decreases held.dom().len(),
{
    lemma_total_size_bounds(held.remove(page));
    let first = held.dom().choose();
    if first != page {
        lemma_total_size_remove(held.remove(first), page);
        lemma_total_size_remove(held.remove(page), first);
        assert(held.remove(first).remove(page) =~= held.remove(page).remove(first));
    }
}

/// The sum is never negative, and zero for an empty store.
pub proof fn lemma_total_size_bounds(held: Map<usize, Image>)
    requires
        held.dom().finite(),
    ensures
        total_size(held) >= 0,
        held.dom().len() == 0 ==> total_size(held) == 0,
    decreases held.dom().len(),
{
    if held.dom().len() != 0 {
        lemma_total_size_bounds(held.remove(held.dom().choose()));
    }
}

/// Putting an image in raises the sum of the others by its size.
pub proof fn lemma_total_size_insert(held: Map<usize, Image>, page: usize, image: Image)
    requires
        held.dom().finite(),
    ensures
        total_size(held.insert(page, image)) == image@.data.len() + total_size(held.remove(page)),
{
    lemma_total_size_remove(held.insert(page, image), page);
    assert(held.insert(page, image).remove(page) =~= held.remove(page));
}

impl RegistryView {
    /// What holds of every registry between two operations.
    pub open spec fn valid(self) -> bool {
        &&& self.held.dom().finite()
        &&& self.invalidated.finite()
        &&& self.scheduled.finite()
        &&& self.invalidated.subset_of(self.held.dom())
        &&& self.memory_used == total_size(self.held)
        &&& forall|page: usize| #[trigger]
            self.held.contains_key(page) ==> self.insertion_order.contains(page)
        &&& 0 <= self.memory_limit <= usize::MAX
        &&& self.within_budget()
    }

    /// The budget is kept: the held images are below the limit, or nothing is
    /// held at all.
    pub open spec fn within_budget(self) -> bool {
        self.memory_used < self.memory_limit || self.held.dom() =~= Set::<usize>::empty()
    }

    /// A page must be rendered when it is missing or stale and no request for
    /// it is in flight.
    pub open spec fn needs_render(self, page: usize) -> bool {
        (!self.held.contains_key(page) || self.invalidated.contains(page))
            && !self.scheduled.contains(page)
    }

    /// The registry without `page`.
    pub open spec fn without(self, page: usize) -> RegistryView {
        if self.held.contains_key(page) {
            RegistryView {
                held: self.held.remove(page),
                invalidated: self.invalidated.remove(page),
                memory_used: self.memory_used - self.held[page]@.data.len(),
                ..self
            }
        } else {
            self
        }
    }

    /// Drops the oldest pages until the budget is kept or nothing is left to
    /// drop. Entries of the insertion order whose page is gone are skipped.
    pub open spec fn evicted(self) -> RegistryView
        decreases self.insertion_order.len(),
    {
        if self.memory_used < self.memory_limit || self.insertion_order.len() == 0 {
            self
        } else {
            let oldest = self.insertion_order[0];
            let rest = self.insertion_order.subrange(1, self.insertion_order.len() as int);
            (RegistryView { insertion_order: rest, ..self.without(oldest) }).evicted()
        }
    }

    /// The registry after `image` arrived for `page`: an image already held
    /// for the page is replaced, the page is neither stale nor awaited any
    /// more, and the oldest pages leave until the budget is kept.
    pub open spec fn inserted(self, page: usize, image: Image) -> RegistryView {
        let cleared = self.without(page);
        (RegistryView {
            held: cleared.held.insert(page, image),
            invalidated: cleared.invalidated,
            scheduled: self.scheduled.remove(page),
            memory_used: cleared.memory_used + image@.data.len(),
            insertion_order: self.insertion_order.push(page),
            memory_limit: self.memory_limit,
        }).evicted()
    }

    /// The registry after every held image was declared stale.
    pub open spec fn all_invalidated(self) -> RegistryView {
        RegistryView { invalidated: self.held.dom(), scheduled: Set::empty(), ..self }
    }
}

impl View for ImageRegistry {
    type V = RegistryView;

    closed spec fn view(&self) -> RegistryView {
        RegistryView {
            held: self.held@,
            invalidated: self.invalidated@,
            scheduled: self.scheduled@,
            memory_used: self.memory_used as int,
            insertion_order: self.insertion_order@,
            memory_limit: self.memory_limit as int,
        }
    }
}

impl ImageRegistry {
    /// An empty registry that keeps its images below `memory_limit` bytes.
    pub fn new(memory_limit: usize) -> (registry: ImageRegistry)
        ensures
            registry@.valid(),
            registry@.held == Map::<usize, Image>::empty(),
            registry@.invalidated == Set::<usize>::empty(),
            registry@.scheduled == Set::<usize>::empty(),
            registry@.memory_used == 0,
            registry@.insertion_order == Seq::<usize>::empty(),
            registry@.memory_limit == memory_limit,
    {
        let registry = ImageRegistry {
            held: HashMap::new(),
            invalidated: HashSet::new(),
            scheduled: HashSet::new(),
            memory_used: 0,
            insertion_order: VecDeque::new(),
            memory_limit,
        };
        proof {
            lemma_total_size_bounds(registry@.held);
        }
        registry
    }

    /// Bytes occupied by the held images.
    pub fn memory_used(&self) -> (bytes: usize)
        requires
            self@.valid(),
        ensures
            bytes == self@.memory_used,
            bytes == total_size(self@.held),
    {
        proof {
            lemma_total_size_bounds(self@.held);
        }
        self.memory_used as usize
    }

    /// The byte budget.
    pub fn memory_limit(&self) -> (bytes: usize)
        ensures
            bytes == self@.memory_limit,
    {
        self.memory_limit
    }

    /// Number of held images.
    pub fn len(&self) -> (n: usize)
        ensures
            n == self@.held.dom().len(),
    {
        self.held.len()
    }

    /// The image held for `page`, stale or not.
    pub fn get(&self, page: usize) -> (image: Option<&Image>)
        ensures
            image matches Some(i) ==> self@.held.contains_key(page) && *i == self@.held[page],
            image is None ==> !self@.held.contains_key(page),
    {
        self.held.get(&page)
    }

    /// Whether an image is held for `page`.
    pub fn contains(&self, page: usize) -> (held: bool)
        ensures
            held == self@.held.contains_key(page),
    {
        self.held.contains_key(&page)
    }

    /// Whether the image held for `page` is stale.
    pub fn is_invalidated(&self, page: usize) -> (stale: bool)
        ensures
            stale == self@.invalidated.contains(page),
    {
        self.invalidated.contains(&page)
    }

    /// Whether a render request for `page` is in flight.
    pub fn is_scheduled(&self, page: usize) -> (awaited: bool)
        ensures
            awaited == self@.scheduled.contains(page),
    {
        self.scheduled.contains(&page)
    }

    /// Whether `page` has to be requested from the renderer.
    pub fn needs_render(&self, page: usize) -> (needed: bool)
        ensures
            needed == self@.needs_render(page),
    {
        (!self.held.contains_key(&page) || self.invalidated.contains(&page))
            && !self.scheduled.contains(&page)
    }

    /// Records that a render request for `page` is in flight.
    pub fn mark_scheduled(&mut self, page: usize)
        ensures
            final(self)@ == (RegistryView {
                scheduled: old(self)@.scheduled.insert(page),
                ..old(self)@
            }),
            old(self)@.valid() ==> final(self)@.valid(),
    {
        self.scheduled.insert(page);
    }

    /// Forgets the render request for `page`, as when it could not be sent.
    pub fn unmark_scheduled(&mut self, page: usize)
        ensures
            final(self)@ == (RegistryView {
                scheduled: old(self)@.scheduled.remove(page),
                ..old(self)@
            }),
            old(self)@.valid() ==> final(self)@.valid(),
    {
        self.scheduled.remove(&page);
    }

    /// Drops the image of `page` if one is held, and frees its bytes.
    pub fn remove(&mut self, page: usize)
        requires
            old(self)@.valid(),
        ensures
            final(self)@ == old(self)@.without(page),
            final(self)@.valid(),
            final(self)@.memory_used == total_size(final(self)@.held),
    {
        proof {
            if self@.held.contains_key(page) {
                lemma_total_size_remove(self@.held, page);
            }
        }
        match self.held.remove(&page) {
            Some(image) => {
                self.memory_used = self.memory_used - image.size() as u128;
                self.invalidated.remove(&page);
                assert(self@.held =~= old(self)@.held.remove(page));
                assert(self@.held.dom() =~= Set::<usize>::empty() <== old(self)@.held.dom()
                    =~= Set::<usize>::empty());
            },
            None => {
                assert(self@.held =~= old(self)@.held);
            },
        }
    }

    /// Declares every held image stale and forgets the requests in flight.
    /// Nothing is dropped: a stale image is shown until its replacement
    /// arrives.
    pub fn invalidate_all(&mut self)
        requires
            old(self)@.valid(),
        ensures
            final(self)@ == old(self)@.all_invalidated(),
            final(self)@.valid(),
            final(self)@.held.dom().len() == old(self)@.held.dom().len(),
            old(self)@.invalidated.subset_of(final(self)@.invalidated),
    {
        self.invalidated.clear();
        self.scheduled.clear();
        let n = self.insertion_order.len();
        let mut i: usize = 0;
        while i < n
            invariant
                0 <= i <= n,
                n == self.insertion_order@.len(),
                self.held == old(self).held,
                self.insertion_order == old(self).insertion_order,
                self.memory_used == old(self).memory_used,
                self.memory_limit == old(self).memory_limit,
                self.scheduled@ == Set::<usize>::empty(),
                self.invalidated@.finite(),
                self.invalidated@.subset_of(self.held@.dom()),
                forall|k: int|
                    0 <= k < i && self.held@.contains_key(#[trigger] self.insertion_order@[k])
                        ==> self.invalidated@.contains(self.insertion_order@[k]),
            decreases n - i,
        {
            let page = self.insertion_order[i];
            if self.held.contains_key(&page) {
                self.invalidated.insert(page);
            }
            i = i + 1;
        }
        proof {
            assert forall|page: usize| self@.held.contains_key(page) implies self@.invalidated.contains(
                page,
            ) by {
                assert(old(self)@.insertion_order.contains(page));
                let k = choose|k: int|
                    0 <= k < self.insertion_order@.len() && self.insertion_order@[k] == page;
                assert(self.held@.contains_key(self.insertion_order@[k]));
            }
            assert(self@.invalidated =~= self@.held.dom());
        }
    }

    /// Takes in the image rendered for `page`. An image already held for the
    /// page is replaced; then the oldest pages leave until the held bytes are
    /// below the limit, the new image among them if it alone reaches it.
    pub fn insert(&mut self, page: usize, image: Image)
        requires
            old(self)@.valid(),
        ensures
            final(self)@ == old(self)@.inserted(page, image),
            final(self)@.valid(),
            final(self)@.memory_used == total_size(final(self)@.held),
            final(self)@.memory_limit > 0 ==> final(self)@.memory_used < final(self)@.memory_limit,
            !final(self)@.invalidated.contains(page),
            !final(self)@.scheduled.contains(page),
            final(self)@.held.contains_key(page) ==> final(self)@.held[page] == image,
    {
        let size = image.size() as u128;
        self.remove(page);
        proof {
            lemma_total_size_insert(self@.held, page, image);
            lemma_total_size_bounds(self@.held);
            assert(self@.held.remove(page) =~= self@.held);
        }
        self.memory_used = self.memory_used + size;
        self.insertion_order.push_back(page);
        self.held.insert(page, image);
        self.scheduled.remove(&page);
        let ghost start = self@;
        proof {
            assert(start.insertion_order.last() == page);
            assert forall|p: usize| #[trigger] start.held.contains_key(p) implies start.insertion_order.contains(
                p,
            ) by {
                if p != page {
                    assert(old(self)@.without(page).held.contains_key(p));
                    assert(old(self)@.insertion_order.contains(p));
                    let k = choose|k: int|
                        0 <= k < old(self)@.insertion_order.len() && old(self)@.insertion_order[k]
                            == p;
                    assert(start.insertion_order[k] == p);
                } else {
                    assert(start.insertion_order[start.insertion_order.len() - 1] == page);
                }
            }
        }
        self.evict();
        proof {
            lemma_total_size_bounds(self@.held);
        }
    }

    /// Drops the oldest pages until the budget is kept.
    fn evict(&mut self)
        requires
            old(self)@.held.dom().finite(),
            old(self)@.invalidated.finite(),
            old(self)@.scheduled.finite(),
            old(self)@.invalidated.subset_of(old(self)@.held.dom()),
            old(self)@.memory_used == total_size(old(self)@.held),
            forall|page: usize| #[trigger]
                old(self)@.held.contains_key(page) ==> old(self)@.insertion_order.contains(page),
        ensures
            final(self)@ == old(self)@.evicted(),
            final(self)@.valid(),
            final(self)@.invalidated.subset_of(old(self)@.invalidated),
            final(self)@.scheduled == old(self)@.scheduled,
            forall|page: usize| #[trigger]
                final(self)@.held.contains_key(page) ==> old(self)@.held.contains_key(page)
                    && final(self)@.held[page] == old(self)@.held[page],
    {
        while self.memory_used >= self.memory_limit as u128 && self.insertion_order.len() > 0
            invariant
                self@.evicted() == old(self)@.evicted(),
                self@.invalidated.subset_of(old(self)@.invalidated),
                self@.scheduled == old(self)@.scheduled,
                forall|page: usize| #[trigger]
                    self@.held.contains_key(page) ==> old(self)@.held.contains_key(page)
                        && self@.held[page] == old(self)@.held[page],
                self@.held.dom().finite(),
                self@.invalidated.finite(),
                self@.scheduled.finite(),
                self@.invalidated.subset_of(self@.held.dom()),
                self@.memory_used == total_size(self@.held),
                forall|page: usize| #[trigger]
                    self@.held.contains_key(page) ==> self@.insertion_order.contains(page),
            decreases self.insertion_order@.len(),
        {
            let ghost before = self@;
            let oldest = self.insertion_order.pop_front();
            match oldest {
                Some(page) => {
                    proof {
                        if before.held.contains_key(page) {
                            lemma_total_size_remove(before.held, page);
                        }
                    }
                    match self.held.remove(&page) {
                        Some(image) => {
                            self.memory_used = self.memory_used - image.size() as u128;
                            self.invalidated.remove(&page);
                            assert(self@.held =~= before.held.remove(page));
                        },
                        None => {
                            assert(self@.held =~= before.held);
                        },
                    }
                    proof {
                        assert(self@ == (RegistryView {
                            insertion_order: before.insertion_order.subrange(
                                1,
                                before.insertion_order.len() as int,
                            ),
                            ..before.without(page)
                        }));
                        assert forall|p: usize| #[trigger] self@.held.contains_key(p) implies self@.insertion_order.contains(
                            p,
                        ) by {
                            assert(before.held.contains_key(p) && p != page || before.held.contains_key(p) && !before.held.contains_key(page));
                            assert(before.insertion_order.contains(p));
                            let k = choose|k: int|
                                0 <= k < before.insertion_order.len() && before.insertion_order[k]
                                    == p;
                            assert(k > 0);
                            assert(self@.insertion_order[k - 1] == p);
                        }
                    }
                },
                None => {},
            }
        }
        proof {
            if self@.memory_used >= self@.memory_limit {
                assert(self@.insertion_order.len() == 0);
                assert forall|p: usize| !self@.held.contains_key(p) by {
                    if self@.held.contains_key(p) {
                        assert(self@.insertion_order.contains(p));
                    }
                }
                assert(self@.held.dom() =~= Set::<usize>::empty());
            }
        }
    }
}

} // verus!
