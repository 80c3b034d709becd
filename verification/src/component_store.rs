//! A store that owns components of one family and names each by a dense
//! identifier.

use std::marker::PhantomData;
use vstd::prelude::*;
use vstd::std_specs::cmp::PartialEqSpecImpl;

verus! {

/// The identifier of a component within the store that issued it.
///
/// The marker type `T` keeps the identifiers of different families apart: an
/// identifier of one family is not accepted where one of another is expected.
pub struct ComponentId<T>(pub usize, pub PhantomData<T>);

impl<T> ComponentId<T> {
    pub(crate) fn new(id: usize) -> (made: Self)
        ensures
            made.0 == id,
    {
        ComponentId(id, PhantomData)
    }
}

impl<T> Clone for ComponentId<T> {
    fn clone(&self) -> (copy: Self)
        ensures
            copy == *self,
    {
        ComponentId(self.0, PhantomData)
    }
}

impl<T> Copy for ComponentId<T> {

}

impl<T> PartialEq for ComponentId<T> {
    fn eq(&self, other: &Self) -> (same: bool) {
        self.0 == other.0
    }
}

impl<T> PartialEqSpecImpl for ComponentId<T> {
    open spec fn obeys_eq_spec() -> bool {
        true
    }

    open spec fn eq_spec(&self, other: &Self) -> bool {
        self.0 == other.0
    }
}

struct StoredComponent<T, Id> {
    id: ComponentId<Id>,
    data: Box<T>,
}

/// Components of type `T` in the order in which they were added, each under
/// the identifier that its position gives it.
pub struct ComponentsStore<T, Id> {
    components: Vec<StoredComponent<T, Id>>,
    created_elements: usize,
}

impl<T, Id> View for ComponentsStore<T, Id> {
    type V = Seq<T>;

    /// The stored components, in insertion order.
    closed spec fn view(&self) -> Seq<T> {
        Seq::new(self.components@.len(), |i: int| *self.components@[i].data)
    }
}

impl<T, Id> Default for ComponentsStore<T, Id> {
    fn default() -> (store: Self)
        ensures
            store.wf(),
            store@ == Seq::<T>::empty(),
    {
        let store = Self { components: Vec::new(), created_elements: 0 };
        assert(store@ =~= Seq::<T>::empty());
        store
    }
}

impl<T, Id> ComponentsStore<T, Id> {
    /// Every component sits at the position that its identifier names, and
    /// the next identifier to issue is the number of components.
    pub closed spec fn wf(&self) -> bool {
        &&& self.created_elements == self.components@.len()
        &&& forall|i: int|
            0 <= i < self.components@.len() ==> (#[trigger] self.components@[i]).id.0 == i
    }

    /// Takes ownership of `component` and returns its identifier: the number
    /// of components that were added before it.
    pub fn add_component(&mut self, component: Box<T>) -> (id: ComponentId<Id>)
        requires
            old(self).wf(),
            old(self)@.len() < usize::MAX,
        ensures
            final(self).wf(),
            final(self)@ == old(self)@.push(*component),
            id.0 == old(self)@.len(),
    {
        let id = ComponentId::new(self.created_elements);
        self.components.push(StoredComponent { id, data: component });
        self.created_elements += 1;
        assert(self@ =~= old(self)@.push(*component));
        id
    }

    /// The component that `id` names, if this store holds one under it.
    pub fn get_component(&self, id: ComponentId<Id>) -> (found: Option<&T>)
        ensures
            id.0 < self@.len() ==> found == Some(&self@[id.0 as int]),
            id.0 >= self@.len() ==> found is None,
    {
        if id.0 < self.components.len() {
            Some(&*self.components[id.0].data)
        } else {
            None
        }
    }

    /// Mutable access to the component that `id` names, if this store holds
    /// one under it. Whatever the caller leaves in it takes its place; the
    /// other components stay as they are.
    pub fn get_component_mut(&mut self, id: ComponentId<Id>) -> (found: Option<&mut T>)
        ensures
            old(self).wf() ==> final(self).wf(),
            id.0 < old(self)@.len() ==> found is Some && *found.unwrap() == old(self)@[id.0 as int]
                && final(self)@ == old(self)@.update(id.0 as int, *final(found.unwrap())),
            id.0 >= old(self)@.len() ==> found is None && final(self)@ == old(self)@,
    {
        if id.0 < self.components.len() {
            Some(&mut *self.components[id.0].data)
        } else {
            None
        }
    }

    /// Shared access to every component, in insertion order.
    pub fn iter_components(&self) -> (all: Vec<&T>)
        ensures
            all@.len() == self@.len(),
            forall|i: int| 0 <= i < all@.len() ==> *all@[i] == self@[i],
    {
        let mut all: Vec<&T> = Vec::new();
        let mut i: usize = 0;
        while i < self.components.len()
            invariant
                i <= self.components@.len(),
                all@.len() == i,
                forall|j: int| 0 <= j < i ==> *all@[j] == self@[j],
            decreases self.components@.len() - i,
        {
            all.push(&*self.components[i].data);
            i += 1;
        }
        all
    }

    /// Mutable access to every component, in insertion order. Whatever the
    /// caller leaves in each takes its place in the store.
    pub fn iter_components_mut(&mut self) -> (all: Vec<&mut T>)
        ensures
            old(self).wf() ==> final(self).wf(),
            all@.len() == old(self)@.len(),
            final(self)@.len() == old(self)@.len(),
            forall|i: int| 0 <= i < all@.len() ==> *all@[i] == old(self)@[i],
            forall|i: int| 0 <= i < all@.len() ==> final(self)@[i] == *final(all@[i]),
    {
        let mut all: Vec<&mut T> = Vec::new();
        let ghost at_entry = self.components@;
        let ghost after = *final(self);
        let mut rest: &mut [StoredComponent<T, Id>] = self.components.as_mut_slice();
        while rest.len() > 0
            invariant
                all@.len() + rest@.len() == at_entry.len(),
                rest@ == at_entry.skip(all@.len() as int),
                after.created_elements == old(self).created_elements,
                after.components@.len() == all@.len() + final(rest)@.len(),
                forall|j: int| 0 <= j < all@.len() ==> *(#[trigger] all@[j]) == *at_entry[j].data,
                forall|j: int|
                    0 <= j < all@.len() ==> (#[trigger] after.components@[j]).id == at_entry[j].id
                        && *after.components@[j].data == *final(all@[j]),
                forall|j: int|
                    0 <= j < final(rest)@.len() ==> after.components@[all@.len() + j] == (
                    #[trigger] final(rest)@[j]),
            decreases rest@.len(),
        {
            let ghost done = all@.len() as int;
            let ghost end_of_rest = final(rest)@;
            let (head, tail) = rest.split_at_mut(1);
            assert(head@.len() == 1);
            assert(head@[0] == at_entry[done]);
            assert(tail@ =~= at_entry.skip(done + 1));
            assert(end_of_rest == final(head)@ + final(tail)@);
            let ghost end_of_head = final(head)@;
            match head.first_mut() {
                Some(stored) => {
                    assert(*stored == at_entry[done]);
                    assert(end_of_head == seq![at_entry[done]].update(0, *final(stored)));
                    let ghost end_of_stored = *final(stored);
                    let data = &mut *stored.data;
                    assert(end_of_stored.id == at_entry[done].id);
                    assert(*end_of_stored.data == *final(data));
                    all.push(data);
                    proof {
                        assert(end_of_head[0] == end_of_stored);
                        assert(end_of_rest[0] == end_of_stored);
                        assert(after.components@[done] == end_of_stored);
                    }
                },
                None => {},
            }
            rest = tail;
            proof {
                assert forall|j: int| 0 <= j < final(rest)@.len() implies after.components@[all@.len()
                    + j] == final(rest)@[j] by {
                    assert(end_of_rest[1 + j] == final(rest)@[j]);
                }
            }
        }
        all
    }

    /// The number of components in the store.
    pub fn len(&self) -> (count: usize)
        ensures
            count == self@.len(),
    {
        self.components.len()
    }
}

} // verus!
