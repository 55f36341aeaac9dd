use vstd::prelude::*;
use crate::layer::Layer;
use crate::ocean::highest_first;
use crate::selection::Selection;
use crate::squid::SquidRef;

verus! {

/// A row of the layers panel: the name of a layer (by its place among the layers), or an
/// object that a layer lists.
#[derive(Copy, Clone, PartialEq, Eq, Structural, Debug)]
pub enum Entry {
    LayerName(usize),
    Child(SquidRef),
}

/// The rows of the layers panel, from the top: each layer's name, followed by the
/// objects it lists, from its top down.
pub open spec fn panel_entries(layers: Seq<Layer>) -> Seq<Entry>
    decreases layers.len(),
{
    if layers.len() == 0 {
        Seq::empty()
    } else {
        panel_entries(layers.drop_last()) + seq![Entry::LayerName((layers.len() - 1) as usize)]
            + layers.last().squids@.map_values(|squid: SquidRef| Entry::Child(squid))
    }
}

/// The selections after clicking on the row of an object: that object, selected as a
/// whole, joins the selections when Shift is held and replaces them otherwise.
pub open spec fn clicked_selections(selections: Seq<Selection>, squid: SquidRef, shift: bool) -> Seq<Selection> {
    let kept = if shift { selections } else { Seq::empty() };
    kept.push(Selection { squid_id: squid, limb_id: None })
}

/// The options tab that lists the layers and their objects, one row each.
pub struct Layers {
    entries: Vec<Entry>,
}

impl Layers {
    /// The rows, from the top.
    pub closed spec fn rows(self) -> Seq<Entry> {
        self.entries@
    }

    /// A panel with no rows yet.
    pub fn new() -> (panel: Self)
        ensures
            panel.rows() == Seq::<Entry>::empty(),
    {
        Self { entries: Vec::new() }
    }

    /// Rebuilds the rows from the layers.
    pub fn update(&mut self, layers: &[Layer])
        ensures
            final(self).rows() == panel_entries(layers@),
    {
        let mut entries: Vec<Entry> = Vec::new();
        let mut l: usize = 0;
        while l < layers.len()
            invariant
                l <= layers@.len(),
                entries@ == panel_entries(layers@.take(l as int)),
            decreases layers@.len() - l,
        {
            let ghost before = entries@;
            entries.push(Entry::LayerName(l));
            let squids = &layers[l].squids;
            let mut k: usize = 0;
            while k < squids.len()
                invariant
                    k <= squids@.len(),
                    squids@ == layers@[l as int].squids@,
                    entries@ == before + seq![Entry::LayerName(l)] + squids@.take(k as int).map_values(
                        |squid: SquidRef| Entry::Child(squid),
                    ),
                decreases squids@.len() - k,
            {
                entries.push(Entry::Child(squids[k]));
                proof {
                    assert(squids@.take(k + 1).map_values(|squid: SquidRef| Entry::Child(squid)) =~= squids@.take(
                        k as int,
                    ).map_values(|squid: SquidRef| Entry::Child(squid)).push(Entry::Child(squids@[k as int])));
                }
                k = k + 1;
            }
            proof {
                assert(squids@.take(k as int) =~= squids@);
                assert(layers@.take(l + 1).drop_last() =~= layers@.take(l as int));
                assert(layers@.take(l + 1).last() == layers@[l as int]);
            }
            l = l + 1;
        }
        proof {
            assert(layers@.take(l as int) =~= layers@);
        }
        self.entries = entries;
    }

    /// The rows, from the top.
    pub fn entries(&self) -> (entries: &[Entry])
        ensures
            entries@ == self.rows(),
    {
        self.entries.as_slice()
    }

    /// Clicking on row `row` with the left button: on the row of an object, that object
    /// is selected (added to the selections when Shift is held, in their place
    /// otherwise); on a layer's name, or below the last row, nothing changes.
    pub fn click_row(&self, row: usize, shift: bool, selections: &mut Vec<Selection>)
        ensures
            final(selections)@ == if row < self.rows().len() && self.rows()[row as int] is Child {
                clicked_selections(old(selections)@, self.rows()[row as int]->Child_0, shift)
            } else {
                old(selections)@
            },
    {
        if row < self.entries.len() {
            match self.entries[row] {
                Entry::Child(squid) => {
                    if !shift {
                        selections.clear();
                    }
                    selections.push(Selection { squid_id: squid, limb_id: None });
                },
                Entry::LayerName(_) => {},
            }
        }
    }
}

/// The panel has one row per layer and one per listed object, also for empty layers:
/// every layer's name row is there, every row names a layer that exists or an object that
/// some layer lists, and the object rows, in order, are the layers' objects layer by
/// layer, each from its top down.
pub proof fn lemma_panel_rows(layers: Seq<Layer>)
    ensures
        panel_entries(layers).len() == layers.len() + highest_first(layers).len(),
        forall|l: usize| l < layers.len() ==> #[trigger] panel_entries(layers).contains(Entry::LayerName(l)),
        forall|i: int| 0 <= i < panel_entries(layers).len() ==> match #[trigger] panel_entries(layers)[i] {
            Entry::LayerName(l) => l < layers.len(),
            Entry::Child(squid) => highest_first(layers).contains(squid),
        },
        panel_entries(layers).filter(|row: Entry| row is Child).map_values(|row: Entry| row->Child_0) == highest_first(layers),
    decreases layers.len(),
{
    if layers.len() > 0 {
        let rest = layers.drop_last();
        let n = (layers.len() - 1) as usize;
        let children = layers.last().squids@;
        let rows = panel_entries(rest);
        let child_rows = children.map_values(|squid: SquidRef| Entry::Child(squid));
        lemma_panel_rows(rest);
        assert(panel_entries(layers) == rows + seq![Entry::LayerName(n)] + child_rows);
        assert(highest_first(layers) == highest_first(rest) + children);
        let all = panel_entries(layers);
        assert forall|l: usize| l < layers.len() implies #[trigger] all.contains(Entry::LayerName(l)) by {
            if l < rest.len() {
                assert(rows.contains(Entry::LayerName(l)));
                let i = choose|i: int| 0 <= i < rows.len() && rows[i] == Entry::LayerName(l);
                assert(all[i] == rows[i]);
            } else {
                assert(all[rows.len() as int] == Entry::LayerName(n));
            }
        }
        assert forall|i: int| 0 <= i < all.len() implies match #[trigger] all[i] {
            Entry::LayerName(l) => l < layers.len(),
            Entry::Child(squid) => highest_first(layers).contains(squid),
        } by {
            if i < rows.len() {
                assert(all[i] == rows[i]);
                match rows[i] {
                    Entry::LayerName(l) => {},
                    Entry::Child(squid) => {
                        let j = choose|j: int| 0 <= j < highest_first(rest).len() && highest_first(rest)[j] == squid;
                        assert(highest_first(layers)[j] == squid);
                    },
                }
            } else if i > rows.len() {
                let j = i - rows.len() - 1;
                assert(all[i] == child_rows[j]);
                assert(highest_first(layers)[highest_first(rest).len() + j] == children[j]);
            }
        }
        let is_child = |row: Entry| row is Child;
        let squid_of = |row: Entry| row->Child_0;
        Seq::filter_distributes_over_add(rows + seq![Entry::LayerName(n)], child_rows, is_child);
        Seq::filter_distributes_over_add(rows, seq![Entry::LayerName(n)], is_child);
        reveal_with_fuel(Seq::filter, 2);
        assert(seq![Entry::LayerName(n)].drop_last() =~= Seq::<Entry>::empty());
        assert(seq![Entry::LayerName(n)].filter(is_child) =~= Seq::<Entry>::empty());
        lemma_all_children(children);
        assert(rows.filter(is_child) + Seq::<Entry>::empty() =~= rows.filter(is_child));
        assert((rows.filter(is_child) + child_rows).map_values(squid_of) =~= rows.filter(is_child).map_values(squid_of) + child_rows.map_values(squid_of));
        assert(child_rows.map_values(squid_of) =~= children);
    }
}

/// Rows made of objects only are all kept by a filter for object rows.
proof fn lemma_all_children(children: Seq<SquidRef>)
    ensures
        children.map_values(|squid: SquidRef| Entry::Child(squid)).filter(|row: Entry| row is Child)
            == children.map_values(|squid: SquidRef| Entry::Child(squid)),
    decreases children.len(),
{
    reveal_with_fuel(Seq::filter, 1);
    let rows = children.map_values(|squid: SquidRef| Entry::Child(squid));
    if children.len() > 0 {
        lemma_all_children(children.drop_last());
        assert(rows.drop_last() =~= children.drop_last().map_values(|squid: SquidRef| Entry::Child(squid)));
        assert(rows.drop_last().push(rows.last()) =~= rows);
    } else {
        assert(rows =~= Seq::<Entry>::empty());
    }
}

} // verus!
