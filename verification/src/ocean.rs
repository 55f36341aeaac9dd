use vstd::prelude::*;
use crate::layer::{
    lemma_remove_mention_keeps_only_others, lemma_remove_mention_removes, lemma_remove_mention_undoes_add,
    lemma_remove_unmentioned_changes_nothing, without_mention, Layer,
};
use crate::squid::SquidRef;

verus! {

/// True when `reference` is one of `keys`.
pub open spec fn stores(keys: Seq<SquidRef>, reference: SquidRef) -> bool {
    exists|i: int| 0 <= i < keys.len() && keys[i] == reference
}

/// Where `reference` is in `keys`, when it is there.
pub open spec fn stored_at(keys: Seq<SquidRef>, reference: SquidRef) -> int {
    choose|i: int| 0 <= i < keys.len() && keys[i] == reference
}

/// True when no reference occurs twice in `keys`.
pub open spec fn distinct_keys(keys: Seq<SquidRef>) -> bool {
    forall|i: int, j: int| 0 <= i < j < keys.len() ==> keys[i] != keys[j]
}

/// The objects of `values`, each by the reference at the same place in `keys`.
pub open spec fn objects_of<S>(keys: Seq<SquidRef>, values: Seq<S>) -> Map<SquidRef, S> {
    Map::new(
        |reference: SquidRef| stores(keys, reference),
        |reference: SquidRef| values[stored_at(keys, reference)],
    )
}

/// True when some layer of `layers` lists `reference`.
pub open spec fn listed_in(layers: Seq<Layer>, reference: SquidRef) -> bool {
    exists|l: int| 0 <= l < layers.len() && (#[trigger] layers[l]).squids@.contains(reference)
}

/// The objects the layers list, layer by layer, each layer from the top down.
pub open spec fn highest_first(layers: Seq<Layer>) -> Seq<SquidRef>
    decreases layers.len(),
{
    if layers.len() == 0 {
        Seq::empty()
    } else {
        highest_first(layers.drop_last()) + layers.last().squids@
    }
}

/// The objects the layers list, layer by layer, each layer from the bottom up.
pub open spec fn lowest_first(layers: Seq<Layer>) -> Seq<SquidRef>
    decreases layers.len(),
{
    if layers.len() == 0 {
        Seq::empty()
    } else {
        lowest_first(layers.drop_last()) + layers.last().squids@.reverse()
    }
}

/// The world the objects of a document live in: the objects, each under its own
/// reference, and the layers that list them, one of which is the current layer that new
/// objects go to.
pub struct Ocean<S> {
    current_layer: usize,
    layers: Vec<Layer>,
    keys: Vec<SquidRef>,
    squids: Vec<S>,
    next_key: u64,
}

impl<S> Ocean<S> {
    /// There is a current layer; every object is under a reference of its own, smaller
    /// than the next reference to hand out; every listed object exists, and every object
    /// is listed.
    #[verifier::type_invariant]
    pub closed spec fn wf(self) -> bool {
        &&& self.layers@.len() > 0
        &&& self.current_layer < self.layers@.len()
        &&& self.keys@.len() == self.squids@.len()
        &&& distinct_keys(self.keys@)
        &&& forall|i: int| 0 <= i < self.keys@.len() ==> (#[trigger] self.keys@[i]).0 < self.next_key
        &&& forall|l: int, k: int|
            0 <= l < self.layers@.len() && 0 <= k < self.layers@[l].squids@.len()
                ==> stores(self.keys@, #[trigger] self.layers@[l].squids@[k])
        &&& forall|i: int| 0 <= i < self.keys@.len() ==> listed_in(self.layers@, #[trigger] self.keys@[i])
    }

    /// The objects, by reference.
    pub closed spec fn objects(self) -> Map<SquidRef, S> {
        objects_of(self.keys@, self.squids@)
    }

    /// The layers, in order.
    pub closed spec fn layer_list(self) -> Seq<Layer> {
        self.layers@
    }

    /// Which layer new objects go to.
    pub closed spec fn current(self) -> int {
        self.current_layer as int
    }

    /// How many more references can be handed out: they are handed out one after another,
    /// and never twice.
    pub closed spec fn references_left(self) -> nat {
        (u64::MAX - self.next_key) as nat
    }

    /// True when another object can be added.
    pub open spec fn can_insert(self) -> bool {
        self.references_left() > 0
    }

    /// True when the layers list exactly the objects there are.
    pub open spec fn lists_exactly_its_objects(self) -> bool {
        forall|reference: SquidRef| #[trigger] listed_in(self.layer_list(), reference) <==> self.objects().contains_key(reference)
    }

    /// A world as its operations leave it lists exactly the objects it holds: every listed
    /// object exists, and every object is listed in some layer.
    pub proof fn lemma_lists_exactly_its_objects(self)
        requires
            self.wf(),
        ensures
            self.lists_exactly_its_objects(),
    {
        assert forall|reference: SquidRef| #[trigger] listed_in(self.layer_list(), reference) <==> self.objects().contains_key(reference) by {
            if listed_in(self.layers@, reference) {
                let l = choose|l: int| 0 <= l < self.layers@.len() && (#[trigger] self.layers@[l]).squids@.contains(reference);
                let k = choose|k: int| 0 <= k < self.layers@[l].squids@.len() && self.layers@[l].squids@[k] == reference;
                assert(stores(self.keys@, self.layers@[l].squids@[k]));
            }
            if stores(self.keys@, reference) {
                let i = stored_at(self.keys@, reference);
                assert(listed_in(self.layers@, self.keys@[i]));
            }
        }
    }

    /// How many more objects can be added.
    pub fn remaining_references(&self) -> (left: u64)
        ensures
            left == self.references_left(),
    {
        u64::MAX - self.next_key
    }

    /// Whether another object can be added.
    pub fn has_room(&self) -> (room: bool)
        ensures
            room == self.can_insert(),
    {
        self.next_key < u64::MAX
    }

    /// The layers, in order.
    pub fn get_layers(&self) -> (layers: &[Layer])
        ensures
            layers@ == self.layer_list(),
    {
        self.layers.as_slice()
    }

    /// The listed objects, layer by layer, each layer from the top down.
    pub fn get_squids_highest(&self) -> (squids: Vec<SquidRef>)
        ensures
            squids@ == highest_first(self.layer_list()),
    {
        let mut squids: Vec<SquidRef> = Vec::new();
        let mut l: usize = 0;
        while l < self.layers.len()
            invariant
                l <= self.layers@.len(),
                squids@ == highest_first(self.layers@.take(l as int)),
            decreases self.layers@.len() - l,
        {
            let mut layer_squids = self.layers[l].get_highest();
            proof {
                assert(self.layers@.take(l + 1).drop_last() =~= self.layers@.take(l as int));
            }
            squids.append(&mut layer_squids);
            l = l + 1;
        }
        assert(self.layers@.take(l as int) =~= self.layers@);
        squids
    }

    /// The listed objects, layer by layer, each layer from the bottom up.
    pub fn get_squids_lowest(&self) -> (squids: Vec<SquidRef>)
        ensures
            squids@ == lowest_first(self.layer_list()),
    {
        let mut squids: Vec<SquidRef> = Vec::new();
        let mut l: usize = 0;
        while l < self.layers.len()
            invariant
                l <= self.layers@.len(),
                squids@ == lowest_first(self.layers@.take(l as int)),
            decreases self.layers@.len() - l,
        {
            let mut layer_squids = self.layers[l].get_lowest();
            proof {
                assert(self.layers@.take(l + 1).drop_last() =~= self.layers@.take(l as int));
            }
            squids.append(&mut layer_squids);
            l = l + 1;
        }
        assert(self.layers@.take(l as int) =~= self.layers@);
        squids
    }

    /// The listed objects, in no promised order; they come as `get_squids_highest` gives
    /// them.
    pub fn get_squids_unordered(&self) -> (squids: Vec<SquidRef>)
        ensures
            squids@ == highest_first(self.layer_list()),
    {
        self.get_squids_highest()
    }

    /// Where `reference` is among the keys, or the number of keys when it is not there.
    fn find(&self, reference: SquidRef) -> (at: usize)
        ensures
            at <= self.keys@.len(),
            at < self.keys@.len() <==> stores(self.keys@, reference),
            at < self.keys@.len() ==> at == stored_at(self.keys@, reference) && self.keys@[at as int] == reference,
    {
        proof {
            use_type_invariant(self);
        }
        let mut i: usize = 0;
        while i < self.keys.len() && self.keys[i] != reference
            invariant
                i <= self.keys@.len(),
                distinct_keys(self.keys@),
                forall|j: int| 0 <= j < i ==> self.keys@[j] != reference,
            decreases self.keys@.len() - i,
        {
            i = i + 1;
        }
        proof {
            if i < self.keys@.len() {
                assert(stores(self.keys@, reference));
                assert(self.keys@[stored_at(self.keys@, reference)] == reference);
            }
        }
        i
    }

    /// The object stored under `reference`, if there is one.
    pub fn get(&self, reference: SquidRef) -> (found: Option<&S>)
        ensures
            match found {
                Some(object) => self.objects().contains_key(reference) && *object == self.objects()[reference],
                None => !self.objects().contains_key(reference),
            },
    {
        proof {
            use_type_invariant(self);
        }
        let at = self.find(reference);
        if at < self.keys.len() {
            Some(&self.squids[at])
        } else {
            None
        }
    }

    /// The object stored under `reference`, if there is one, to change in place; the
    /// layers and the other objects stay as they are.
    pub fn get_mut(&mut self, reference: SquidRef) -> (found: Option<&mut S>)
        ensures
            found is Some <==> old(self).objects().contains_key(reference),
            match found {
                Some(object) => {
                    &&& *object == old(self).objects()[reference]
                    &&& final(self).objects() == old(self).objects().insert(reference, *final(object))
                },
                None => final(self).objects() == old(self).objects(),
            },
            final(self).layer_list() == old(self).layer_list(),
            final(self).current() == old(self).current(),
            final(self).lists_exactly_its_objects(),
            final(self).references_left() == old(self).references_left(),
    {
        proof {
            use_type_invariant(&*self);
            self.lemma_lists_exactly_its_objects();
        }
        let at = self.find(reference);
        if at < self.keys.len() {
            proof {
                let keys = self.keys@;
                let values = self.squids@;
                assert forall|v: S| #[trigger] objects_of(keys, values.update(at as int, v)) == objects_of(keys, values).insert(reference, v) by {
                    assert forall|r: SquidRef| stores(keys, r) && r != reference implies stored_at(keys, r) != at as int by {
                        assert(keys[stored_at(keys, r)] == r);
                    }
                    assert(objects_of(keys, values.update(at as int, v)) =~= objects_of(keys, values).insert(reference, v));
                }
            }
            Some(&mut self.squids[at])
        } else {
            None
        }
    }

    /// Adds an object on top of the current layer, under a reference that no object had
    /// and no layer listed.
    pub fn insert(&mut self, value: S) -> (reference: SquidRef)
        requires
            old(self).can_insert(),
        ensures
            inserted(*old(self), *final(self), reference, value),
    {
        proof {
            use_type_invariant(&*self);
        }
        let mut taken = Ocean::default();
        core::mem::swap(self, &mut taken);
        let Ocean { current_layer, mut layers, mut keys, mut squids, next_key } = taken;
        let ghost old_layers = layers@;
        let ghost old_keys = keys@;
        let ghost old_values = squids@;
        let reference = SquidRef(next_key);
        proof {
            assert(!stores(old_keys, reference));
            assert(!listed_in(old_layers, reference)) by {
                if listed_in(old_layers, reference) {
                    let l = choose|l: int| 0 <= l < old_layers.len() && (#[trigger] old_layers[l]).squids@.contains(reference);
                    let k = choose|k: int| 0 <= k < old_layers[l].squids@.len() && old_layers[l].squids@[k] == reference;
                    assert(stores(old_keys, old_layers[l].squids@[k]));
                }
            }
        }
        keys.push(reference);
        squids.push(value);
        layers[current_layer].add(reference);
        proof {
            let new_keys = keys@;
            let new_layers = layers@;
            let cur = current_layer as int;
            let n = old_keys.len() as int;
            assert(new_keys == old_keys.push(reference));
            assert(new_keys[n] == reference);
            assert forall|r: SquidRef| #[trigger] stores(old_keys, r) implies stores(new_keys, r) && stored_at(new_keys, r) == stored_at(old_keys, r) by {
                let i = stored_at(old_keys, r);
                assert(new_keys[i] == old_keys[i]);
                let j = stored_at(new_keys, r);
                if j == n {
                    assert(old_keys[i].0 < next_key);
                } else if j != i {
                    assert(old_keys[j] == r);
                }
            }
            assert(stores(new_keys, reference));
            assert(stored_at(new_keys, reference) == n) by {
                let j = stored_at(new_keys, reference);
                if j < n {
                    assert(old_keys[j] == reference);
                }
            }
            assert(distinct_keys(new_keys)) by {
                assert forall|i: int, j: int| 0 <= i < j < new_keys.len() implies new_keys[i] != new_keys[j] by {
                    if j == n {
                        assert(old_keys[i].0 < next_key);
                    }
                }
            }
            assert forall|i: int| 0 <= i < new_keys.len() implies (#[trigger] new_keys[i]).0 < next_key + 1 by {
                if i < n {
                    assert(old_keys[i] == new_keys[i]);
                }
            }
            assert forall|l: int, k: int| 0 <= l < new_layers.len() && 0 <= k < new_layers[l].squids@.len()
                implies stores(new_keys, #[trigger] new_layers[l].squids@[k]) by {
                let r = new_layers[l].squids@[k];
                if l == cur && k == 0 {
                    assert(r == reference);
                } else if l == cur {
                    assert(r == old_layers[l].squids@[k - 1]);
                    assert(stores(old_keys, old_layers[l].squids@[k - 1]));
                } else {
                    assert(r == old_layers[l].squids@[k]);
                    assert(stores(old_keys, old_layers[l].squids@[k]));
                }
            }
            assert forall|i: int| 0 <= i < new_keys.len() implies listed_in(new_layers, #[trigger] new_keys[i]) by {
                if i == n {
                    assert(new_layers[cur].squids@[0] == reference);
                    assert(new_layers[cur].squids@.contains(reference));
                } else {
                    let r = old_keys[i];
                    assert(new_keys[i] == r);
                    assert(listed_in(old_layers, old_keys[i]));
                    let l = choose|l: int| 0 <= l < old_layers.len() && (#[trigger] old_layers[l]).squids@.contains(r);
                    let k = choose|k: int| 0 <= k < old_layers[l].squids@.len() && old_layers[l].squids@[k] == r;
                    if l == cur {
                        assert(new_layers[l].squids@[k + 1] == r);
                    } else {
                        assert(new_layers[l].squids@[k] == r);
                    }
                    assert(new_layers[l].squids@.contains(r));
                }
            }
            assert(objects_of(new_keys, squids@) =~= objects_of(old_keys, old_values).insert(reference, value));
        }
        *self = Ocean { current_layer, layers, keys, squids, next_key: next_key + 1 };
        proof {
            use_type_invariant(&*self);
            self.lemma_lists_exactly_its_objects();
        }
        reference
    }
    /// Removes the object stored under `reference`, and every mention of it in the layers;
    /// the other objects and entries stay as they were.
    pub fn remove(&mut self, reference: SquidRef)
        ensures
            removed(*old(self), *final(self), reference),
    {
        proof {
            use_type_invariant(&*self);
        }
        let at = self.find(reference);
        let mut taken = Ocean::default();
        core::mem::swap(self, &mut taken);
        let Ocean { current_layer, mut layers, mut keys, mut squids, next_key } = taken;
        let ghost old_layers = layers@;
        let ghost old_keys = keys@;
        let ghost old_values = squids@;
        let mut l: usize = 0;
        while l < layers.len()
            invariant
                l <= layers@.len(),
                layers@.len() == old_layers.len(),
                forall|m: int| 0 <= m < layers@.len() ==> {
                    &&& (#[trigger] layers@[m]).name@ == old_layers[m].name@
                    &&& layers@[m].squids@ == if m < l {
                        without_mention(old_layers[m].squids@, reference)
                    } else {
                        old_layers[m].squids@
                    }
                },
            decreases layers@.len() - l,
        {
            layers[l].remove_mention(reference);
            l = l + 1;
        }
        if at < keys.len() {
            keys.remove(at);
            squids.remove(at);
        }
        proof {
            let new_keys = keys@;
            let new_layers = layers@;
            let removed = at < old_keys.len();
            let a = at as int;
            // Where the entry now at `j` was before.
            let was = |j: int| if removed && j >= a { j + 1 } else { j };
            if removed {
                assert(new_keys == old_keys.remove(a));
                assert(squids@ == old_values.remove(a));
            }
            assert forall|j: int| 0 <= j < new_keys.len() implies new_keys[j] == old_keys[was(j)] && squids@[j] == old_values[was(j)] && new_keys[j] != reference by {
                if removed && j >= a {
                    assert(old_keys[j + 1] != old_keys[a]);
                }
            }
            assert forall|r: SquidRef| r != reference && #[trigger] stores(old_keys, r) implies stores(new_keys, r) && squids@[stored_at(new_keys, r)] == old_values[stored_at(old_keys, r)] by {
                let oi = stored_at(old_keys, r);
                let ni = if removed && oi > a { oi - 1 } else { oi };
                assert(new_keys[ni] == old_keys[oi]);
                let nj = stored_at(new_keys, r);
                assert(old_keys[was(nj)] == r);
            }
            assert forall|r: SquidRef| #[trigger] stores(new_keys, r) implies r != reference && stores(old_keys, r) by {
                let nj = stored_at(new_keys, r);
                assert(old_keys[was(nj)] == r);
            }
            assert(distinct_keys(new_keys)) by {
                assert forall|i: int, j: int| 0 <= i < j < new_keys.len() implies new_keys[i] != new_keys[j] by {
                    assert(old_keys[was(i)] != old_keys[was(j)]);
                }
            }
            assert forall|j: int| 0 <= j < new_keys.len() implies (#[trigger] new_keys[j]).0 < next_key by {
                assert(old_keys[was(j)].0 < next_key);
            }
            assert forall|m: int, k: int| 0 <= m < new_layers.len() && 0 <= k < new_layers[m].squids@.len()
                implies stores(new_keys, #[trigger] new_layers[m].squids@[k]) by {
                lemma_remove_mention_keeps_only_others(old_layers[m].squids@, reference);
                let r = new_layers[m].squids@[k];
                assert(old_layers[m].squids@.contains(r));
                let ok = choose|ok: int| 0 <= ok < old_layers[m].squids@.len() && old_layers[m].squids@[ok] == r;
                assert(stores(old_keys, old_layers[m].squids@[ok]));
            }
            assert forall|j: int| 0 <= j < new_keys.len() implies listed_in(new_layers, #[trigger] new_keys[j]) by {
                let r = new_keys[j];
                assert(old_keys[was(j)] == r);
                assert(listed_in(old_layers, old_keys[was(j)]));
                let m = choose|m: int| 0 <= m < old_layers.len() && (#[trigger] old_layers[m]).squids@.contains(r);
                lemma_remove_mention_removes(old_layers[m].squids@, reference);
                assert(new_layers[m].squids@.contains(r));
            }
            assert(objects_of(new_keys, squids@) =~= objects_of(old_keys, old_values).remove(reference));
        }
        *self = Ocean { current_layer, layers, keys, squids, next_key };
        proof {
            use_type_invariant(&*self);
            self.lemma_lists_exactly_its_objects();
        }
    }
}

impl<S: Clone> Clone for Ocean<S> {
    /// A copy of the world: the same references, each object cloned (`S::clone`), the
    /// same layers, current layer, and references left to hand out.
    fn clone(&self) -> (copy: Self)
        ensures
            copy.objects().dom() == self.objects().dom(),
            forall|reference: SquidRef| #[trigger] self.objects().contains_key(reference)
                ==> cloned(self.objects()[reference], copy.objects()[reference]),
            copy.layer_list().len() == self.layer_list().len(),
            forall|l: int| 0 <= l < self.layer_list().len() ==> {
                &&& (#[trigger] copy.layer_list()[l]).name@ == self.layer_list()[l].name@
                &&& copy.layer_list()[l].squids@ == self.layer_list()[l].squids@
            },
            copy.current() == self.current(),
            copy.references_left() == self.references_left(),
            copy.lists_exactly_its_objects(),
    {
        proof {
            use_type_invariant(self);
        }
        let mut layers: Vec<Layer> = Vec::new();
        let mut l: usize = 0;
        while l < self.layers.len()
            invariant
                l <= self.layers@.len(),
                layers@.len() == l,
                forall|m: int| 0 <= m < l ==> {
                    &&& (#[trigger] layers@[m]).name@ == self.layers@[m].name@
                    &&& layers@[m].squids@ == self.layers@[m].squids@
                },
            decreases self.layers@.len() - l,
        {
            layers.push(self.layers[l].clone());
            l = l + 1;
        }
        let mut keys: Vec<SquidRef> = Vec::new();
        let mut i: usize = 0;
        while i < self.keys.len()
            invariant
                i <= self.keys@.len(),
                keys@ == self.keys@.take(i as int),
            decreases self.keys@.len() - i,
        {
            keys.push(self.keys[i]);
            i = i + 1;
            assert(keys@ =~= self.keys@.take(i as int));
        }
        assert(self.keys@.take(i as int) =~= self.keys@);
        let squids = self.squids.clone();
        proof {
            assert forall|m: int, k: int| 0 <= m < layers@.len() && 0 <= k < layers@[m].squids@.len()
                implies stores(keys@, #[trigger] layers@[m].squids@[k]) by {
                assert(layers@[m].squids@ == self.layers@[m].squids@);
            }
            assert forall|j: int| 0 <= j < keys@.len() implies listed_in(layers@, #[trigger] keys@[j]) by {
                assert(listed_in(self.layers@, self.keys@[j]));
                let m = choose|m: int| 0 <= m < self.layers@.len() && (#[trigger] self.layers@[m]).squids@.contains(self.keys@[j]);
                assert(layers@[m].squids@ == self.layers@[m].squids@);
            }
        }
        let copy = Ocean { current_layer: self.current_layer, layers, keys, squids, next_key: self.next_key };
        proof {
            assert(copy.objects().dom() =~= self.objects().dom());
            copy.lemma_lists_exactly_its_objects();
        }
        copy
    }
}

impl<S> Default for Ocean<S> {
    /// An empty world with one layer, the default one, which is current.
    fn default() -> (ocean: Self)
        ensures
            ocean.objects() == Map::<SquidRef, S>::empty(),
            ocean.layer_list().len() == 1,
            ocean.layer_list()[0].name@ == "Default Layer"@,
            ocean.layer_list()[0].squids@ == Seq::<SquidRef>::empty(),
            ocean.current() == 0,
            ocean.references_left() == u64::MAX,
            ocean.lists_exactly_its_objects(),
    {
        let mut layers: Vec<Layer> = Vec::new();
        layers.push(Layer::default());
        let ocean = Ocean { current_layer: 0, layers, keys: Vec::new(), squids: Vec::new(), next_key: 0 };
        assert(ocean.objects() =~= Map::<SquidRef, S>::empty());
        proof {
            ocean.lemma_lists_exactly_its_objects();
        }
        ocean
    }
}

/// What `Ocean::insert` does: `value` is stored under `reference`, the next reference to
/// hand out, which no object had and no layer listed; `reference` goes on top of the
/// current layer, and nothing else changes; one reference fewer is left to hand out.
pub open spec fn inserted<S>(before: Ocean<S>, after: Ocean<S>, reference: SquidRef, value: S) -> bool {
    &&& reference.0 == u64::MAX - before.references_left()
    &&& !before.objects().contains_key(reference)
    &&& !listed_in(before.layer_list(), reference)
    &&& after.objects() == before.objects().insert(reference, value)
    &&& after.current() == before.current()
    &&& after.layer_list().len() == before.layer_list().len()
    &&& forall|l: int| 0 <= l < before.layer_list().len() ==> {
        &&& (#[trigger] after.layer_list()[l]).name@ == before.layer_list()[l].name@
        &&& after.layer_list()[l].squids@ == if l == before.current() {
            seq![reference] + before.layer_list()[l].squids@
        } else {
            before.layer_list()[l].squids@
        }
    }
    &&& after.lists_exactly_its_objects()
    &&& after.references_left() == before.references_left() - 1
}

/// What `Ocean::remove` does: the object under `reference` is gone, and so is every
/// mention of it in the layers; nothing else changes.
pub open spec fn removed<S>(before: Ocean<S>, after: Ocean<S>, reference: SquidRef) -> bool {
    &&& after.objects() == before.objects().remove(reference)
    &&& after.current() == before.current()
    &&& after.layer_list().len() == before.layer_list().len()
    &&& forall|l: int| 0 <= l < before.layer_list().len() ==> {
        &&& (#[trigger] after.layer_list()[l]).name@ == before.layer_list()[l].name@
        &&& after.layer_list()[l].squids@ == without_mention(before.layer_list()[l].squids@, reference)
    }
    &&& after.lists_exactly_its_objects()
    &&& after.references_left() == before.references_left()
}

/// Which object's context menu opens under the pointer, given for each object, from the
/// top down, whether it offers a menu there: the first that offers one, or none.
pub fn try_context_menu(offers: &[bool]) -> (chosen: Option<usize>)
    ensures
        match chosen {
            Some(k) => k < offers@.len() && offers@[k as int] && forall|j: int| 0 <= j < k ==> !offers@[j],
            None => forall|j: int| 0 <= j < offers@.len() ==> !offers@[j],
        },
{
    let mut i: usize = 0;
    while i < offers.len()
        invariant
            i <= offers@.len(),
            forall|j: int| 0 <= j < i ==> !offers@[j],
        decreases offers@.len() - i,
    {
        if offers[i] {
            return Some(i);
        }
        i = i + 1;
    }
    None
}

/// Removing an object right after inserting it gives back the objects and the layers as
/// they were: the insert put it under a reference that no object had and no layer listed,
/// and only on top of the current layer.
pub proof fn lemma_remove_undoes_insert<S>(
    objects: Map<SquidRef, S>,
    layers: Seq<Layer>,
    current: int,
    reference: SquidRef,
    value: S,
)
    requires
        !objects.contains_key(reference),
        !listed_in(layers, reference),
        0 <= current < layers.len(),
    ensures
        objects.insert(reference, value).remove(reference) == objects,
        forall|l: int| 0 <= l < layers.len() ==> without_mention(
            if l == current { seq![reference] + (#[trigger] layers[l]).squids@ } else { layers[l].squids@ },
            reference,
        ) == layers[l].squids@,
{
    assert(objects.insert(reference, value).remove(reference) =~= objects);
    assert forall|l: int| 0 <= l < layers.len() implies without_mention(
        if l == current { seq![reference] + (#[trigger] layers[l]).squids@ } else { layers[l].squids@ },
        reference,
    ) == layers[l].squids@ by {
        assert(!layers[l].squids@.contains(reference));
        if l == current {
            lemma_remove_mention_undoes_add(layers[l].squids@, reference);
        } else {
            lemma_remove_unmentioned_changes_nothing(layers[l].squids@, reference);
        }
    }
}

/// References are handed out in increasing order: an insert made after another (when no
/// more references are left than after the first) hands out a greater reference, so no
/// reference is handed out twice.
pub proof fn lemma_later_references_are_greater<S>(
    first_before: Ocean<S>,
    first_after: Ocean<S>,
    first: SquidRef,
    first_value: S,
    second_before: Ocean<S>,
    second_after: Ocean<S>,
    second: SquidRef,
    second_value: S,
)
    requires
        inserted(first_before, first_after, first, first_value),
        inserted(second_before, second_after, second, second_value),
        second_before.references_left() <= first_after.references_left(),
    ensures
        first.0 < second.0,
{
}

/// After a removal, no object is stored under the reference and no layer lists it; every
/// other object that was listed still is.
pub proof fn lemma_removed_is_gone<S>(objects: Map<SquidRef, S>, layers: Seq<Layer>, reference: SquidRef)
    ensures
        !objects.remove(reference).contains_key(reference),
        forall|l: int| 0 <= l < layers.len() ==> !without_mention((#[trigger] layers[l]).squids@, reference).contains(reference),
        forall|l: int, other: SquidRef| 0 <= l < layers.len() && other != reference && #[trigger] layers[l].squids@.contains(other)
            ==> without_mention(layers[l].squids@, reference).contains(other),
{
    assert forall|l: int| 0 <= l < layers.len() implies !without_mention((#[trigger] layers[l]).squids@, reference).contains(reference) by {
        lemma_remove_mention_removes(layers[l].squids@, reference);
    }
    assert forall|l: int, other: SquidRef| 0 <= l < layers.len() && other != reference && #[trigger] layers[l].squids@.contains(other)
        implies without_mention(layers[l].squids@, reference).contains(other) by {
        lemma_remove_mention_removes(layers[l].squids@, reference);
    }
}

} // verus!
