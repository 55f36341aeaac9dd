use vstd::prelude::*;
use crate::squid::{SquidLimbRef, SquidRef};

verus! {

/// A selected object, or a selected part of one when `limb_id` is set.
#[derive(Copy, Clone, PartialEq, Eq, Structural, Debug)]
pub struct Selection {
    pub squid_id: SquidRef,
    pub limb_id: Option<SquidLimbRef>,
}

impl Selection {
    pub fn new(squid_id: SquidRef, limb_id: Option<SquidLimbRef>) -> (selection: Self)
        ensures
            selection == (Selection { squid_id, limb_id }),
    {
        Self { squid_id, limb_id }
    }
}

/// True when some selection in `selections` is of the object `squid_reference`.
pub open spec fn selects(selections: Seq<Selection>, squid_reference: SquidRef) -> bool {
    exists|i: int| 0 <= i < selections.len() && (#[trigger] selections[i]).squid_id == squid_reference
}

/// Whether the object is selected (as a whole or through one of its parts).
pub fn selection_contains(selections: &[Selection], squid_reference: SquidRef) -> (found: bool)
    ensures
        found == selects(selections@, squid_reference),
{
    let mut i: usize = 0;
    while i < selections.len()
        invariant
            i <= selections@.len(),
            forall|j: int| 0 <= j < i ==> (#[trigger] selections@[j]).squid_id != squid_reference,
        decreases selections@.len() - i,
    {
        if selections[i].squid_id == squid_reference {
            return true;
        }
        i = i + 1;
    }
    false
}

/// The objects selected as a whole (not through one of their parts), in selection order.
pub open spec fn whole_selections(selections: Seq<Selection>) -> Seq<SquidRef> {
    selections.filter(|s: Selection| s.limb_id is None).map_values(|s: Selection| s.squid_id)
}

/// The objects selected as a whole, in selection order; selections of a part of an
/// object are left out.
pub fn selected_squids(selections: &[Selection]) -> (squids: Vec<SquidRef>)
    ensures
        squids@ == whole_selections(selections@),
{
    let mut squids: Vec<SquidRef> = Vec::new();
    let mut i: usize = 0;
    while i < selections.len()
        invariant
            i <= selections@.len(),
            squids@ == whole_selections(selections@.take(i as int)),
        decreases selections@.len() - i,
    {
        proof {
            reveal_with_fuel(Seq::filter, 1);
            assert(selections@.take(i + 1).drop_last() =~= selections@.take(i as int));
        }
        if selections[i].limb_id.is_none() {
            squids.push(selections[i].squid_id);
            proof {
                let kept = selections@.take(i as int).filter(|s: Selection| s.limb_id is None);
                assert(kept.push(selections@[i as int]).map_values(|s: Selection| s.squid_id) =~= kept.map_values(|s: Selection| s.squid_id).push(selections@[i as int].squid_id));
            }
        }
        i = i + 1;
    }
    assert(selections@.take(i as int) =~= selections@);
    squids
}

/// What the pointer finds over one object, as the host works it out: whether it is over
/// one of the object's handles, and what clicking there would select of it, if anything.
#[derive(Copy, Clone, PartialEq, Eq, Structural, Debug)]
pub struct SelectProbe {
    pub squid: SquidRef,
    pub over_handle: bool,
    pub hit: Option<Selection>,
}

/// What a click under the pointer does to the selections: start a new selection with
/// what the probe at the given place hit, keep the selections as they are, or drop them.
#[derive(Copy, Clone, PartialEq, Eq, Structural, Debug)]
pub enum TrySelectResult {
    New(usize),
    Preserve,
    Discard,
}

/// True when `probe` ends the search: the pointer is over a handle of an object already
/// selected, or it hits the object.
pub open spec fn decides(probe: SelectProbe, existing: Seq<Selection>) -> bool {
    (selects(existing, probe.squid) && probe.over_handle) || probe.hit is Some
}

/// The outcome of a click, looking at the probes from place `i` on (objects from the top
/// down): the first probe that decides keeps the selections when its object is already
/// selected, and starts a new selection with what it hit otherwise; when none decides,
/// the selections are dropped.
pub open spec fn try_select_from(probes: Seq<SelectProbe>, existing: Seq<Selection>, i: int) -> TrySelectResult
    decreases probes.len() - i,
{
    if i < 0 || i >= probes.len() {
        TrySelectResult::Discard
    } else if decides(probes[i], existing) {
        if selects(existing, probes[i].squid) {
            TrySelectResult::Preserve
        } else {
            TrySelectResult::New(i as usize)
        }
    } else {
        try_select_from(probes, existing, i + 1)
    }
}

/// What a click does to the selections, given what the pointer finds over each object,
/// objects from the top down.
pub fn try_select(probes: &[SelectProbe], existing: &[Selection]) -> (result: TrySelectResult)
    ensures
        result == try_select_from(probes@, existing@, 0),
        result matches TrySelectResult::New(k) ==> k < probes@.len() && probes@[k as int].hit is Some,
{
    let mut i: usize = 0;
    while i < probes.len()
        invariant
            i <= probes@.len(),
            try_select_from(probes@, existing@, 0) == try_select_from(probes@, existing@, i as int),
        decreases probes@.len() - i,
    {
        let probe = probes[i];
        let already_selected = selection_contains(existing, probe.squid);
        if already_selected && probe.over_handle {
            return TrySelectResult::Preserve;
        }
        if probe.hit.is_some() {
            return if already_selected {
                TrySelectResult::Preserve
            } else {
                TrySelectResult::New(i)
            };
        }
        i = i + 1;
    }
    TrySelectResult::Discard
}

/// Probes that neither hit their object nor lie over a handle of a selected object let
/// the search go on: the outcome from `i` is the outcome from any later place `k` that
/// only such probes separate from it.
proof fn lemma_passing_probes(probes: Seq<SelectProbe>, existing: Seq<Selection>, i: int, k: int)
    requires
        0 <= i <= k <= probes.len(),
        forall|j: int| i <= j < k ==> (#[trigger] probes[j]).hit is None && !(probes[j].over_handle && selects(existing, probes[j].squid)),
    ensures
        try_select_from(probes, existing, i) == try_select_from(probes, existing, k),
    decreases k - i,
{
    if i < k {
        assert(probes[i].hit is None);
        lemma_passing_probes(probes, existing, i + 1, k);
    }
}

/// A click hitting an object that no selection mentions, below only objects that it
/// neither hits nor finds a selected object's handle of, starts a new selection with that
/// object's probe, whatever other objects are selected.
pub proof fn lemma_click_on_unselected_object_selects_it(probes: Seq<SelectProbe>, existing: Seq<Selection>, k: int)
    requires
        0 <= k < probes.len(),
        probes[k].hit is Some,
        forall|i: int| 0 <= i < existing.len() ==> (#[trigger] existing[i]).squid_id != probes[k].squid,
        forall|j: int| 0 <= j < k ==> (#[trigger] probes[j]).hit is None && !(probes[j].over_handle && selects(existing, probes[j].squid)),
    ensures
        try_select_from(probes, existing, 0) == TrySelectResult::New(k as usize),
{
    lemma_passing_probes(probes, existing, 0, k);
    assert(!selects(existing, probes[k].squid));
}

/// A click that first hits, or lies over a handle of, an object that is already
/// selected keeps the selections as they are.
pub proof fn lemma_click_on_selected_object_preserves(probes: Seq<SelectProbe>, existing: Seq<Selection>, k: int, w: int)
    requires
        0 <= k < probes.len(),
        0 <= w < existing.len(),
        existing[w].squid_id == probes[k].squid,
        probes[k].hit is Some || probes[k].over_handle,
        forall|j: int| 0 <= j < k ==> (#[trigger] probes[j]).hit is None && !(probes[j].over_handle && selects(existing, probes[j].squid)),
    ensures
        try_select_from(probes, existing, 0) == TrySelectResult::Preserve,
{
    lemma_passing_probes(probes, existing, 0, k);
    assert(selects(existing, probes[k].squid));
}

/// A click that hits no object, and lies over no handle of a selected one, drops the
/// selections.
pub proof fn lemma_click_on_nothing_discards(probes: Seq<SelectProbe>, existing: Seq<Selection>)
    requires
        forall|j: int| 0 <= j < probes.len() ==> (#[trigger] probes[j]).hit is None && !(probes[j].over_handle && selects(existing, probes[j].squid)),
    ensures
        try_select_from(probes, existing, 0) == TrySelectResult::Discard,
{
    lemma_passing_probes(probes, existing, 0, probes.len() as int);
}

} // verus!
