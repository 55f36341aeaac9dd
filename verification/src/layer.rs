use vstd::prelude::*;
use crate::squid::SquidRef;

verus! {

/// A named stack of objects; the first entry is drawn on top (the highest).
pub struct Layer {
    pub name: String,
    pub squids: Vec<SquidRef>,
}

/// The entries of `squids` that are not `reference`, in their order.
pub open spec fn without_mention(squids: Seq<SquidRef>, reference: SquidRef) -> Seq<SquidRef> {
    squids.filter(|squid: SquidRef| squid != reference)
}

impl Layer {
    /// An empty layer with the given name.
    pub fn new(name: String) -> (layer: Self)
        ensures
            layer.name@ == name@,
            layer.squids@ == Seq::<SquidRef>::empty(),
    {
        Self { name, squids: Vec::new() }
    }

    /// Puts `reference` on top of the layer.
    pub fn add(&mut self, reference: SquidRef)
        ensures
            final(self).name@ == old(self).name@,
            final(self).squids@ == seq![reference] + old(self).squids@,
    {
        self.squids.insert(0, reference);
        assert(self.squids@ =~= seq![reference] + old(self).squids@);
    }

    /// Removes every mention of `reference`, keeping the other entries in order.
    pub fn remove_mention(&mut self, reference: SquidRef)
        ensures
            final(self).name@ == old(self).name@,
            final(self).squids@ == without_mention(old(self).squids@, reference),
    {
        let mut kept: Vec<SquidRef> = Vec::new();
        let mut i: usize = 0;
        while i < self.squids.len()
            invariant
                i <= self.squids.len(),
                self.squids@ == old(self).squids@,
                self.name@ == old(self).name@,
                kept@ == without_mention(self.squids@.take(i as int), reference),
            decreases self.squids.len() - i,
        {
            let squid = self.squids[i];
            proof {
                reveal_with_fuel(Seq::filter, 1);
                assert(self.squids@.take(i + 1).drop_last() =~= self.squids@.take(i as int));
            }
            if squid != reference {
                kept.push(squid);
            }
            i = i + 1;
        }
        assert(self.squids@.take(i as int) =~= self.squids@);
        self.squids = kept;
    }

    /// The objects from the bottom of the layer up.
    pub fn get_lowest(&self) -> (lowest: Vec<SquidRef>)
        ensures
            lowest@ == self.squids@.reverse(),
    {
        let mut lowest: Vec<SquidRef> = Vec::new();
        let mut i: usize = self.squids.len();
        while i > 0
            invariant
                i <= self.squids.len(),
                lowest@.len() == self.squids.len() - i,
                forall|j: int| 0 <= j < lowest@.len() ==> lowest@[j] == self.squids@[self.squids@.len() - 1 - j],
            decreases i,
        {
            i = i - 1;
            lowest.push(self.squids[i]);
        }
        assert(lowest@ =~= self.squids@.reverse());
        lowest
    }

    /// The objects from the top of the layer down.
    pub fn get_highest(&self) -> (highest: Vec<SquidRef>)
        ensures
            highest@ == self.squids@,
    {
        let mut highest: Vec<SquidRef> = Vec::new();
        let mut i: usize = 0;
        while i < self.squids.len()
            invariant
                i <= self.squids.len(),
                highest@ == self.squids@.take(i as int),
            decreases self.squids.len() - i,
        {
            highest.push(self.squids[i]);
            i = i + 1;
            assert(highest@ =~= self.squids@.take(i as int));
        }
        assert(self.squids@.take(i as int) =~= self.squids@);
        highest
    }

    /// The layer's name.
    pub fn get_name(&self) -> (name: &str)
        ensures
            name@ == self.name@,
    {
        self.name.as_str()
    }
}

impl Clone for Layer {
    /// A layer with the same name and the same entries.
    fn clone(&self) -> (copy: Self)
        ensures
            copy.name@ == self.name@,
            copy.squids@ == self.squids@,
    {
        let mut squids: Vec<SquidRef> = Vec::new();
        let mut i: usize = 0;
        while i < self.squids.len()
            invariant
                i <= self.squids@.len(),
                squids@ == self.squids@.take(i as int),
            decreases self.squids@.len() - i,
        {
            squids.push(self.squids[i]);
            i = i + 1;
            assert(squids@ =~= self.squids@.take(i as int));
        }
        assert(self.squids@.take(i as int) =~= self.squids@);
        Layer { name: self.name.clone(), squids }
    }
}

impl Default for Layer {
    /// An empty layer named "Default Layer".
    fn default() -> (layer: Self)
        ensures
            layer.name@ == "Default Layer"@,
            layer.squids@ == Seq::<SquidRef>::empty(),
    {
        Self::new(String::from_str("Default Layer"))
    }
}

/// After `remove_mention`, the layer no longer mentions the reference, and every other
/// entry is still there.
pub proof fn lemma_remove_mention_removes(squids: Seq<SquidRef>, reference: SquidRef)
    ensures
        !without_mention(squids, reference).contains(reference),
        forall|other: SquidRef| other != reference && squids.contains(other) ==> #[trigger] without_mention(squids, reference).contains(other),
{
    broadcast use Seq::lemma_filter_pred, Seq::lemma_filter_contains;
    let pred = |squid: SquidRef| squid != reference;
    if without_mention(squids, reference).contains(reference) {
        let i = choose|i: int| 0 <= i < squids.filter(pred).len() && squids.filter(pred)[i] == reference;
        assert(pred(squids.filter(pred)[i]));
    }
    assert forall|other: SquidRef| other != reference && squids.contains(other) implies #[trigger] without_mention(squids, reference).contains(other) by {
        let i = choose|i: int| 0 <= i < squids.len() && squids[i] == other;
        assert(pred(squids[i]));
    }
}

/// Every entry left after removing the mentions of a reference was there before, and is
/// another object.
pub proof fn lemma_remove_mention_keeps_only_others(squids: Seq<SquidRef>, reference: SquidRef)
    ensures
        forall|k: int| 0 <= k < without_mention(squids, reference).len() ==> {
            &&& squids.contains(#[trigger] without_mention(squids, reference)[k])
            &&& without_mention(squids, reference)[k] != reference
        },
{
    broadcast use Seq::lemma_filter_pred, Seq::lemma_filter_contains_rev;
    let kept = without_mention(squids, reference);
    assert forall|k: int| 0 <= k < kept.len() implies squids.contains(#[trigger] kept[k]) && kept[k] != reference by {
        assert(kept.contains(kept[k]));
    }
}

/// The entries of `squids` that are none of `references`, in their order.
pub open spec fn without_any(squids: Seq<SquidRef>, references: Seq<SquidRef>) -> Seq<SquidRef> {
    squids.filter(|squid: SquidRef| !references.contains(squid))
}

/// Leaving out none of the entries leaves them all.
pub proof fn lemma_without_none(squids: Seq<SquidRef>)
    ensures
        without_any(squids, Seq::empty()) == squids,
    decreases squids.len(),
{
    reveal_with_fuel(Seq::filter, 1);
    if squids.len() > 0 {
        lemma_without_none(squids.drop_last());
        assert(squids.drop_last().push(squids.last()) =~= squids);
    }
}

/// Removing the mentions of one more reference from what is left without `references`
/// leaves what is left without all of them.
pub proof fn lemma_without_any_push(squids: Seq<SquidRef>, references: Seq<SquidRef>, reference: SquidRef)
    ensures
        without_mention(without_any(squids, references), reference) == without_any(squids, references.push(reference)),
    decreases squids.len(),
{
    reveal_with_fuel(Seq::filter, 1);
    if squids.len() > 0 {
        let rest = squids.drop_last();
        let last = squids.last();
        lemma_without_any_push(rest, references, reference);
        assert(references.push(reference).contains(last) <==> references.contains(last) || last == reference) by {
            if references.push(reference).contains(last) {
                let i = choose|i: int| 0 <= i < references.push(reference).len() && references.push(reference)[i] == last;
                if i < references.len() {
                    assert(references[i] == last);
                }
            }
            if references.contains(last) {
                let i = choose|i: int| 0 <= i < references.len() && references[i] == last;
                assert(references.push(reference)[i] == last);
            }
            if last == reference {
                assert(references.push(reference)[references.len() as int] == last);
            }
        }
        let kept = without_any(rest, references);
        if !references.contains(last) {
            assert(kept.push(last).drop_last() =~= kept);
        }
    }
}

/// Removing every mention of a reference a second time changes nothing.
pub proof fn lemma_remove_mention_idempotent(squids: Seq<SquidRef>, reference: SquidRef)
    ensures
        without_mention(without_mention(squids, reference), reference) == without_mention(squids, reference),
    decreases squids.len(),
{
    reveal_with_fuel(Seq::filter, 1);
    if squids.len() > 0 {
        lemma_remove_mention_idempotent(squids.drop_last(), reference);
        let rest = without_mention(squids.drop_last(), reference);
        if squids.last() != reference {
            assert(rest.push(squids.last()).drop_last() =~= rest);
        }
    }
}

/// Adding a reference the layer does not mention and then removing its mentions gives
/// back the layer's entries as they were.
pub proof fn lemma_remove_mention_undoes_add(squids: Seq<SquidRef>, reference: SquidRef)
    requires
        !squids.contains(reference),
    ensures
        without_mention(seq![reference] + squids, reference) == squids,
{
    let pred = |squid: SquidRef| squid != reference;
    Seq::filter_distributes_over_add(seq![reference], squids, pred);
    reveal_with_fuel(Seq::filter, 2);
    assert(seq![reference].drop_last() =~= Seq::<SquidRef>::empty());
    assert(seq![reference].filter(pred) =~= Seq::<SquidRef>::empty());
    lemma_remove_unmentioned_changes_nothing(squids, reference);
    assert(Seq::<SquidRef>::empty() + squids =~= squids);
}

/// Removing mentions of a reference that is not mentioned changes nothing.
pub proof fn lemma_remove_unmentioned_changes_nothing(squids: Seq<SquidRef>, reference: SquidRef)
    requires
        !squids.contains(reference),
    ensures
        without_mention(squids, reference) == squids,
    decreases squids.len(),
{
    reveal_with_fuel(Seq::filter, 1);
    if squids.len() > 0 {
        assert(!squids.drop_last().contains(reference)) by {
            if squids.drop_last().contains(reference) {
                let i = choose|i: int| 0 <= i < squids.drop_last().len() && squids.drop_last()[i] == reference;
                assert(squids[i] == reference);
            }
        }
        lemma_remove_unmentioned_changes_nothing(squids.drop_last(), reference);
        assert(squids.drop_last().push(squids.last()) =~= squids);
    }
}

/// The bottom-up order of a layer's objects is the top-down order reversed, object for
/// object.
pub proof fn lemma_lowest_reverses_highest(squids: Seq<SquidRef>)
    ensures
        squids.reverse().len() == squids.len(),
        forall|i: int| 0 <= i < squids.len() ==> #[trigger] squids.reverse()[i] == squids[squids.len() - 1 - i],
        squids.reverse().reverse() == squids,
{
    assert(squids.reverse().reverse() =~= squids);
}

} // verus!
