use vstd::prelude::*;
use vstd::std_specs::cmp::PartialEqSpec;
use vstd::laws_eq::obeys_concrete_eq;

verus! {

/// A set kept as a plain list, for items that can only be compared for equality.
///
/// Items are kept in insertion order; an item is only added when no equal item is
/// held, so (for an equality that behaves as one) no two held items are equal.
pub struct LinearSet<T: PartialEq> {
    items: Vec<T>,
}

/// True when some item of `items` compares equal to `item`, in the sense of `T`'s `==`.
pub open spec fn holds_equal<T: PartialEq>(items: Seq<T>, item: T) -> bool {
    exists|i: int| 0 <= i < items.len() && (#[trigger] items[i]).eq_spec(&item)
}

/// True when `index` is the position of the first item of `items` that compares equal
/// to `item`.
pub open spec fn is_first_equal<T: PartialEq>(items: Seq<T>, item: T, index: int) -> bool {
    &&& 0 <= index < items.len()
    &&& items[index].eq_spec(&item)
    &&& forall|j: int| 0 <= j < index ==> !(#[trigger] items[j]).eq_spec(&item)
}

/// True when no two items of `items` compare equal.
pub open spec fn no_equal_pair<T: PartialEq>(items: Seq<T>) -> bool {
    forall|i: int, j: int|
        #![trigger items[i], items[j]]
        0 <= i < j < items.len() ==> !items[i].eq_spec(&items[j])
}

impl<T: PartialEq> View for LinearSet<T> {
    type V = Seq<T>;

    /// The items held, in insertion order.
    closed spec fn view(&self) -> Seq<T> {
        self.items@
    }
}

impl<T: PartialEq> LinearSet<T> {
    /// No two held items compare equal (stated for an `==` that follows its specification).
    #[verifier::type_invariant]
    closed spec fn wf(self) -> bool {
        T::obeys_eq_spec() ==> no_equal_pair(self.items@)
    }

    /// True when no two held items compare equal, for an `==` that follows its
    /// specification; every operation leaves the set so.
    pub open spec fn has_no_equal_pair(self) -> bool {
        T::obeys_eq_spec() ==> no_equal_pair(self.view())
    }

    /// An empty set.
    pub fn new() -> (set: Self)
        ensures
            set.view() == Seq::<T>::empty(),
            set.has_no_equal_pair(),
    {
        LinearSet { items: Vec::new() }
    }

    /// Whether an item equal to `item` is held.
    pub fn contains(&mut self, item: &T) -> (found: bool)
        ensures
            final(self).view() == old(self).view(),
            final(self).has_no_equal_pair(),
            found ==> old(self).view().len() > 0,
            T::obeys_eq_spec() ==> found == holds_equal(old(self).view(), *item),
    {
        proof {
            use_type_invariant(&*self);
        }
        let mut i: usize = 0;
        while i < self.items.len()
            invariant
                i <= self.items.len(),
                self.items@ == old(self).items@,
                T::obeys_eq_spec() ==> no_equal_pair(self.items@),
                T::obeys_eq_spec() ==> forall|j: int| 0 <= j < i ==> !(#[trigger] self.items@[j]).eq_spec(item),
            decreases self.items.len() - i,
        {
            if self.items[i] == *item {
                return true;
            }
            i = i + 1;
        }
        false
    }

    /// Adds `item` unless an equal item is held; returns whether it was added.
    pub fn insert(&mut self, item: T) -> (added: bool)
        ensures
            final(self).has_no_equal_pair(),
            old(self).view().len() == 0 ==> added,
            T::obeys_eq_spec() ==> added == !holds_equal(old(self).view(), item),
            added ==> final(self).view() == old(self).view().push(item),
            !added ==> final(self).view() == old(self).view(),
    {
        proof {
            use_type_invariant(&*self);
        }
        if self.contains(&item) {
            false
        } else {
            let ghost before = self.items@;
            let ghost after = before.push(item);
            proof {
                if T::obeys_eq_spec() {
                    assert forall|i: int, j: int|
                        #![trigger after[i], after[j]]
                        0 <= i < j < after.len() implies !after[i].eq_spec(&after[j]) by {
                        if j < before.len() {
                            assert(after[i] == before[i] && after[j] == before[j]);
                        } else {
                            assert(after[i] == before[i]);
                        }
                    }
                }
            }
            let mut taken = LinearSet { items: Vec::new() };
            core::mem::swap(self, &mut taken);
            let LinearSet { mut items } = taken;
            items.push(item);
            *self = LinearSet { items };
            proof {
                use_type_invariant(&*self);
            }
            true
        }
    }

    /// Removes the first item equal to `item`; returns whether one was held.
    pub fn remove(&mut self, item: &T) -> (removed: bool)
        ensures
            final(self).has_no_equal_pair(),
            T::obeys_eq_spec() ==> removed == holds_equal(old(self).view(), *item),
            removed ==> exists|k: int|
                {
                    &&& 0 <= k < old(self).view().len()
                    &&& final(self).view() == old(self).view().remove(k)
                    &&& T::obeys_eq_spec() ==> is_first_equal(old(self).view(), *item, k)
                },
            !removed ==> final(self).view() == old(self).view(),
    {
        proof {
            use_type_invariant(&*self);
        }
        let mut i: usize = 0;
        while i < self.items.len()
            invariant
                i <= self.items.len(),
                self.items@ == old(self).items@,
                T::obeys_eq_spec() ==> no_equal_pair(self.items@),
                T::obeys_eq_spec() ==> forall|j: int| 0 <= j < i ==> !(#[trigger] self.items@[j]).eq_spec(item),
            decreases self.items.len() - i,
        {
            if self.items[i] == *item {
                let ghost before = self.items@;
                let ghost after = before.remove(i as int);
                proof {
                    assert(before == old(self).view());
                    if T::obeys_eq_spec() {
                        assert forall|a: int, b: int|
                            #![trigger after[a], after[b]]
                            0 <= a < b < after.len() implies !after[a].eq_spec(&after[b]) by {
                            let a0 = if a < i { a } else { a + 1 };
                            let b0 = if b < i { b } else { b + 1 };
                            assert(after[a] == before[a0] && after[b] == before[b0]);
                            assert(!before[a0].eq_spec(&before[b0]));
                        }
                    }
                }
                let mut taken = LinearSet { items: Vec::new() };
                core::mem::swap(self, &mut taken);
                let LinearSet { mut items } = taken;
                items.remove(i);
                *self = LinearSet { items };
                proof {
                    use_type_invariant(&*self);
                    assert(T::obeys_eq_spec() ==> is_first_equal(before, *item, i as int));
                    let k = i as int;
                    assert({
                        &&& 0 <= k < before.len()
                        &&& self.items@ == before.remove(k)
                        &&& T::obeys_eq_spec() ==> is_first_equal(before, *item, k)
                    });
                }
                return true;
            }
            i = i + 1;
        }
        false
    }
}

/// For an `==` that is plain equality, an inserted item is held afterwards.
pub proof fn lemma_inserted_is_held<T: PartialEq>(items: Seq<T>, item: T)
    requires
        obeys_concrete_eq::<T>(),
    ensures
        holds_equal(items.push(item), item),
{
    reveal(obeys_concrete_eq);
    assert(items.push(item)[items.len() as int] == item);
}

/// For an `==` that is plain equality, removing the first item equal to `item` from a
/// list without equal pairs leaves no item equal to it, and keeps the list free of equal
/// pairs.
pub proof fn lemma_removed_is_not_held<T: PartialEq>(items: Seq<T>, item: T, k: int)
    requires
        obeys_concrete_eq::<T>(),
        no_equal_pair(items),
        is_first_equal(items, item, k),
    ensures
        !holds_equal(items.remove(k), item),
        no_equal_pair(items.remove(k)),
{
    reveal(obeys_concrete_eq);
    let rest = items.remove(k);
    assert forall|j: int| 0 <= j < rest.len() implies !(#[trigger] rest[j]).eq_spec(&item) by {
        let j0 = if j < k { j } else { j + 1 };
        assert(rest[j] == items[j0]);
        if j0 < k {
            assert(!items[j0].eq_spec(&items[k]));
        } else {
            assert(!items[k].eq_spec(&items[j0]));
        }
    }
    assert forall|a: int, b: int|
        #![trigger rest[a], rest[b]]
        0 <= a < b < rest.len() implies !rest[a].eq_spec(&rest[b]) by {
        let a0 = if a < k { a } else { a + 1 };
        let b0 = if b < k { b } else { b + 1 };
        assert(rest[a] == items[a0] && rest[b] == items[b0]);
        assert(!items[a0].eq_spec(&items[b0]));
    }
}

} // verus!
