use vstd::prelude::*;
use crate::layer::{lemma_without_any_push, lemma_without_none, without_any};
use crate::history::{pushed_snapshots, redo_position, undo_position, History};
use crate::ocean::{inserted, Ocean};
use crate::selection::{selected_squids, whole_selections, Selection};
use crate::squid::SquidRef;

verus! {

/// Whether saving reuses the project's file name (when it has one) or asks for a new one.
#[derive(Copy, Clone, PartialEq, Eq, Structural, Debug)]
pub enum SaveMethod {
    Save,
    SaveAs,
}

/// The keys the editor reacts to; every other key is `Other`.
#[derive(Copy, Clone, PartialEq, Eq, Structural, Debug)]
pub enum Key {
    Key0,
    Key1,
    Key2,
    Key3,
    Key4,
    Key5,
    Key6,
    Key7,
    Key8,
    Key9,
    Z,
    Equals,
    Minus,
    O,
    S,
    X,
    D,
    Escape,
    Other,
}

/// What a key pressed with Ctrl (Cmd on macOS) held does.
#[derive(Copy, Clone, PartialEq, Eq, Structural, Debug)]
pub enum ShortcutAction {
    Undo,
    Redo,
    IncreaseZoom,
    DecreaseZoom,
    Load,
    Save(SaveMethod),
}

/// What a key pressed on its own does, once the selected tool has let it pass.
#[derive(Copy, Clone, PartialEq, Eq, Structural, Debug)]
pub enum KeyAction {
    SelectTool(usize),
    DeleteSelected,
    CloseContextMenu,
    DuplicateSelected,
}

/// The shortcut that `key` triggers with Ctrl (Cmd on macOS) held, when `shift` tells
/// whether Shift is held too.
pub open spec fn spec_shortcut(key: Key, shift: bool) -> Option<ShortcutAction> {
    match key {
        Key::Z => Some(if shift { ShortcutAction::Redo } else { ShortcutAction::Undo }),
        Key::Equals => Some(ShortcutAction::IncreaseZoom),
        Key::Minus => Some(ShortcutAction::DecreaseZoom),
        Key::O => Some(ShortcutAction::Load),
        Key::S => Some(
            ShortcutAction::Save(if shift { SaveMethod::SaveAs } else { SaveMethod::Save }),
        ),
        _ => None,
    }
}

/// The shortcut that `key` triggers with Ctrl (Cmd on macOS) held: Z undoes (redoes with
/// Shift), `=` and `-` zoom in and out, O loads, S saves (Shift: save as).
pub fn shortcut(key: Key, shift: bool) -> (action: Option<ShortcutAction>)
    ensures
        action == spec_shortcut(key, shift),
{
    match key {
        Key::Z => Some(if shift { ShortcutAction::Redo } else { ShortcutAction::Undo }),
        Key::Equals => Some(ShortcutAction::IncreaseZoom),
        Key::Minus => Some(ShortcutAction::DecreaseZoom),
        Key::O => Some(ShortcutAction::Load),
        Key::S => Some(
            ShortcutAction::Save(if shift { SaveMethod::SaveAs } else { SaveMethod::Save }),
        ),
        _ => None,
    }
}

impl ShortcutAction {
    /// Whether the key press is done once the shortcut has run; after a save the key is
    /// still offered to the selected tool and to the plain key bindings.
    pub fn ends_key_press(&self) -> (ends: bool)
        ensures
            ends == !(*self is Save),
    {
        match self {
            ShortcutAction::Save(_) => false,
            _ => true,
        }
    }
}

/// What `key` does on its own, when `left_shift_held` tells whether the left Shift key
/// is held.
pub open spec fn spec_key_action(key: Key, left_shift_held: bool) -> Option<KeyAction> {
    match key {
        Key::Key1 => Some(KeyAction::SelectTool(1)),
        Key::Key2 => Some(KeyAction::SelectTool(2)),
        Key::Key3 => Some(KeyAction::SelectTool(3)),
        Key::Key4 => Some(KeyAction::SelectTool(4)),
        Key::Key5 => Some(KeyAction::SelectTool(5)),
        Key::Key6 => Some(KeyAction::SelectTool(6)),
        Key::Key7 => Some(KeyAction::SelectTool(7)),
        Key::Key8 => Some(KeyAction::SelectTool(8)),
        Key::Key9 => Some(KeyAction::SelectTool(9)),
        Key::Key0 => Some(KeyAction::SelectTool(0)),
        Key::X => Some(KeyAction::DeleteSelected),
        Key::Escape => Some(KeyAction::CloseContextMenu),
        Key::D => if left_shift_held {
            Some(KeyAction::DuplicateSelected)
        } else {
            None
        },
        _ => None,
    }
}

/// The number printed on a digit key, or none for another key.
pub open spec fn digit_of(key: Key) -> Option<usize> {
    match key {
        Key::Key0 => Some(0usize),
        Key::Key1 => Some(1usize),
        Key::Key2 => Some(2usize),
        Key::Key3 => Some(3usize),
        Key::Key4 => Some(4usize),
        Key::Key5 => Some(5usize),
        Key::Key6 => Some(6usize),
        Key::Key7 => Some(7usize),
        Key::Key8 => Some(8usize),
        Key::Key9 => Some(9usize),
        _ => None,
    }
}

/// A digit key on its own selects the tool whose number is the digit pressed, whether or
/// not Shift is held; and only digit keys select tools.
pub proof fn lemma_digit_keys_select_their_tool(key: Key, left_shift_held: bool)
    ensures
        digit_of(key) matches Some(d) ==> spec_key_action(key, left_shift_held) == Some(KeyAction::SelectTool(d)),
        spec_key_action(key, left_shift_held) matches Some(KeyAction::SelectTool(n)) ==> digit_of(key) == Some(n),
{
}

/// With Ctrl (Cmd on macOS) held, `=` always zooms in and `-` always zooms out; only Z
/// (undo, redo with Shift) and S (save, save as with Shift) depend on Shift; O always
/// loads.
pub proof fn lemma_shortcuts_and_shift(key: Key)
    ensures
        spec_shortcut(Key::Equals, true) == Some(ShortcutAction::IncreaseZoom),
        spec_shortcut(Key::Equals, false) == Some(ShortcutAction::IncreaseZoom),
        spec_shortcut(Key::Minus, true) == Some(ShortcutAction::DecreaseZoom),
        spec_shortcut(Key::Minus, false) == Some(ShortcutAction::DecreaseZoom),
        spec_shortcut(Key::O, true) == Some(ShortcutAction::Load),
        spec_shortcut(Key::O, false) == Some(ShortcutAction::Load),
        spec_shortcut(Key::Z, false) == Some(ShortcutAction::Undo),
        spec_shortcut(Key::Z, true) == Some(ShortcutAction::Redo),
        spec_shortcut(Key::S, false) == Some(ShortcutAction::Save(SaveMethod::Save)),
        spec_shortcut(Key::S, true) == Some(ShortcutAction::Save(SaveMethod::SaveAs)),
        key != Key::Z && key != Key::S ==> spec_shortcut(key, true) == spec_shortcut(key, false),
{
}

/// What `key` does on its own: the digit keys select the tool of that number, X deletes
/// the selection, Escape closes the context menu, and D with the left Shift held
/// duplicates the selection.
pub fn key_action(key: Key, left_shift_held: bool) -> (action: Option<KeyAction>)
    ensures
        action == spec_key_action(key, left_shift_held),
{
    match key {
        Key::Key1 => Some(KeyAction::SelectTool(1)),
        Key::Key2 => Some(KeyAction::SelectTool(2)),
        Key::Key3 => Some(KeyAction::SelectTool(3)),
        Key::Key4 => Some(KeyAction::SelectTool(4)),
        Key::Key5 => Some(KeyAction::SelectTool(5)),
        Key::Key6 => Some(KeyAction::SelectTool(6)),
        Key::Key7 => Some(KeyAction::SelectTool(7)),
        Key::Key8 => Some(KeyAction::SelectTool(8)),
        Key::Key9 => Some(KeyAction::SelectTool(9)),
        Key::Key0 => Some(KeyAction::SelectTool(0)),
        Key::X => Some(KeyAction::DeleteSelected),
        Key::Escape => Some(KeyAction::CloseContextMenu),
        Key::D => if left_shift_held {
            Some(KeyAction::DuplicateSelected)
        } else {
            None
        },
        _ => None,
    }
}

/// How a key press is handled, in order: the shortcut it triggers when Ctrl (Cmd on
/// macOS) is held; whether the press goes on after that, to the selected tool, then to
/// the tool's options; and the plain binding that runs when both of those let it pass.
#[derive(Copy, Clone, PartialEq, Eq, Structural, Debug)]
pub struct KeyPlan {
    pub shortcut: Option<ShortcutAction>,
    pub offer_to_tool: bool,
    pub fallback: Option<KeyAction>,
}

/// The plan for a press of `key`, given whether Ctrl (Cmd on macOS) and Shift are held
/// and whether the left Shift key is held: with Ctrl, the key's shortcut runs first, and
/// every shortcut but saving ends the press; otherwise the press is offered to the
/// selected tool and its options, and then falls back to the key's plain binding.
pub fn key_press_plan(key: Key, ctrl_or_cmd: bool, shift: bool, left_shift_held: bool) -> (plan: KeyPlan)
    ensures
        plan.shortcut == (if ctrl_or_cmd { spec_shortcut(key, shift) } else { None }),
        plan.offer_to_tool <==> !(plan.shortcut matches Some(action) && !(action is Save)),
        plan.fallback == spec_key_action(key, left_shift_held),
{
    let shortcut = if ctrl_or_cmd { crate::app::shortcut(key, shift) } else { None };
    let offer_to_tool = match shortcut {
        Some(action) => !action.ends_key_press(),
        None => true,
    };
    KeyPlan { shortcut, offer_to_tool, fallback: key_action(key, left_shift_held) }
}

impl KeyPlan {
    /// The plain binding to run once the press has been offered to the selected tool and
    /// then to its options (`tool_took_it`, `options_took_it`: whether each took it; both
    /// are false when no tool is selected): it runs only when the press went on past the
    /// shortcut and neither took it.
    pub fn binding_to_run(&self, tool_took_it: bool, options_took_it: bool) -> (action: Option<KeyAction>)
        ensures
            action == (if self.offer_to_tool && !tool_took_it && !options_took_it { self.fallback } else { None }),
    {
        if self.offer_to_tool && !tool_took_it && !options_took_it {
            self.fallback
        } else {
            None
        }
    }
}

/// The window title: the program's name, followed by the project's file name when the
/// project has one.
pub fn window_title(file_name: Option<&str>) -> (title: String)
    ensures
        title@ == match file_name {
            Some(name) => "Photosquid :) - "@ + name@,
            None => "Photosquid :)"@,
        },
{
    match file_name {
        Some(name) => {
            let mut title = String::from_str("Photosquid :) - ");
            title.append(name);
            title
        },
        None => String::from_str("Photosquid :)"),
    }
}

/// Removes every object selected as a whole (selecting a part of an object does not
/// count), with every mention of it in the layers, and clears the selection.
pub fn delete_selected<S>(ocean: &mut Ocean<S>, selections: &mut Vec<Selection>)
    ensures
        final(ocean).objects() == old(ocean).objects().remove_keys(whole_selections(old(selections)@).to_set()),
        final(ocean).current() == old(ocean).current(),
        final(ocean).layer_list().len() == old(ocean).layer_list().len(),
        forall|l: int| 0 <= l < old(ocean).layer_list().len() ==> {
            &&& (#[trigger] final(ocean).layer_list()[l]).name@ == old(ocean).layer_list()[l].name@
            &&& final(ocean).layer_list()[l].squids@ == without_any(
                old(ocean).layer_list()[l].squids@,
                whole_selections(old(selections)@),
            )
        },
        final(ocean).lists_exactly_its_objects(),
        final(ocean).references_left() == old(ocean).references_left(),
        final(selections)@ == Seq::<Selection>::empty(),
{
    let doomed = selected_squids(selections.as_slice());
    let ghost before = *ocean;
    proof {
        assert(before.objects().remove_keys(doomed@.take(0).to_set()) =~= before.objects());
        assert forall|l: int| 0 <= l < before.layer_list().len() implies
            without_any(before.layer_list()[l].squids@, doomed@.take(0)) == #[trigger] before.layer_list()[l].squids@ by {
            assert(doomed@.take(0) =~= Seq::<SquidRef>::empty());
            lemma_without_none(before.layer_list()[l].squids@);
        }
        use_type_invariant(&*ocean);
        ocean.lemma_lists_exactly_its_objects();
    }
    let mut i: usize = 0;
    while i < doomed.len()
        invariant
            i <= doomed@.len(),
            ocean.objects() == before.objects().remove_keys(doomed@.take(i as int).to_set()),
            ocean.current() == before.current(),
            ocean.layer_list().len() == before.layer_list().len(),
            forall|l: int| 0 <= l < before.layer_list().len() ==> {
                &&& (#[trigger] ocean.layer_list()[l]).name@ == before.layer_list()[l].name@
                &&& ocean.layer_list()[l].squids@ == without_any(before.layer_list()[l].squids@, doomed@.take(i as int))
            },
            ocean.lists_exactly_its_objects(),
            ocean.references_left() == before.references_left(),
        decreases doomed@.len() - i,
    {
        ocean.remove(doomed[i]);
        proof {
            let done = doomed@.take(i as int);
            assert(doomed@.take(i + 1) =~= done.push(doomed@[i as int]));
            assert forall|l: int| 0 <= l < before.layer_list().len() implies
                (#[trigger] ocean.layer_list()[l]).squids@ == without_any(before.layer_list()[l].squids@, doomed@.take(i + 1)) by {
                lemma_without_any_push(before.layer_list()[l].squids@, done, doomed@[i as int]);
            }
            assert forall|k: SquidRef| #[trigger] doomed@.take(i + 1).to_set().contains(k) <==> done.to_set().contains(k) || k == doomed@[i as int] by {
                let upto = doomed@.take(i + 1);
                if upto.contains(k) {
                    let j = choose|j: int| 0 <= j < upto.len() && upto[j] == k;
                    if j < i {
                        assert(done[j] == k);
                    }
                }
                if done.contains(k) {
                    let j = choose|j: int| 0 <= j < done.len() && done[j] == k;
                    assert(doomed@.take(i + 1)[j] == k);
                }
                if k == doomed@[i as int] {
                    assert(doomed@.take(i + 1)[i as int] == k);
                }
            }
            assert(ocean.objects() =~= before.objects().remove_keys(doomed@.take(i + 1).to_set()));
        }
        i = i + 1;
    }
    proof {
        assert(doomed@.take(i as int) =~= doomed@);
    }
    selections.clear();
}

/// Keeps only the selections whose object still exists, in their order.
pub fn prune_selection<S>(ocean: &Ocean<S>, selections: &mut Vec<Selection>)
    ensures
        final(selections)@ == old(selections)@.filter(|selection: Selection| ocean.objects().contains_key(selection.squid_id)),
{
    let ghost given = selections@;
    let ghost exists_now = |selection: Selection| ocean.objects().contains_key(selection.squid_id);
    let mut kept: Vec<Selection> = Vec::new();
    let mut i: usize = 0;
    while i < selections.len()
        invariant
            selections@ == given,
            i <= given.len(),
            exists_now == (|selection: Selection| ocean.objects().contains_key(selection.squid_id)),
            kept@ == given.take(i as int).filter(exists_now),
        decreases given.len() - i,
    {
        let selection = selections[i];
        proof {
            reveal_with_fuel(Seq::filter, 1);
            assert(given.take(i + 1).drop_last() =~= given.take(i as int));
        }
        if ocean.get(selection.squid_id).is_some() {
            kept.push(selection);
        }
        i = i + 1;
    }
    proof {
        assert(given.take(i as int) =~= given);
    }
    *selections = kept;
}

/// Adds an object to the world, on top of the current layer, after dropping the
/// selections of objects that no longer exist.
pub fn insert<S>(ocean: &mut Ocean<S>, selections: &mut Vec<Selection>, value: S) -> (reference: SquidRef)
    requires
        old(ocean).can_insert(),
    ensures
        final(selections)@ == old(selections)@.filter(|selection: Selection| old(ocean).objects().contains_key(selection.squid_id)),
        inserted(*old(ocean), *final(ocean), reference, value),
{
    prune_selection(ocean, selections);
    ocean.insert(value)
}

impl SaveMethod {
    /// Whether saving asks the user for a file: saving as always does, a plain save only
    /// when the project has no file yet.
    pub fn asks_for_file(&self, has_file: bool) -> (asks: bool)
        ensures
            asks == (*self == SaveMethod::SaveAs || !has_file),
    {
        match self {
            SaveMethod::Save => !has_file,
            SaveMethod::SaveAs => true,
        }
    }
}

/// Grabbing, rotating or scaling the selection.
#[derive(Copy, Clone, PartialEq, Eq, Structural, Debug)]
pub enum Transform {
    Grab,
    Rotate,
    Scale,
}

/// The kind of operation that a transform of the selection starts: on each object
/// (`Translate`, `Rotate`, `Scale`), or on the selection as a whole about its center
/// (`Spread`, `Revolve`, `Dilate`).
#[derive(Copy, Clone, PartialEq, Eq, Structural, Debug)]
pub enum InitiationKind {
    Translate,
    Rotate,
    Scale,
    Spread,
    Revolve,
    Dilate,
}

/// What `transform` starts, and whether the next operation is still to treat the
/// selection as a whole. When it is (`collectively`), the transform starts its whole-
/// selection kind if some object is selected as a whole (the selection then has a
/// center) and nothing otherwise, and the setting is used up; when it is not, the
/// transform starts on each object.
pub open spec fn spec_initiation_for(transform: Transform, collectively: bool, selections: Seq<Selection>) -> (Option<InitiationKind>, bool) {
    if collectively {
        let started = if whole_selections(selections).len() > 0 {
            Some(match transform {
                Transform::Grab => InitiationKind::Spread,
                Transform::Rotate => InitiationKind::Revolve,
                Transform::Scale => InitiationKind::Dilate,
            })
        } else {
            None
        };
        (started, false)
    } else {
        (
            Some(match transform {
                Transform::Grab => InitiationKind::Translate,
                Transform::Rotate => InitiationKind::Rotate,
                Transform::Scale => InitiationKind::Scale,
            }),
            false,
        )
    }
}

/// Unless the selection is to be treated as a whole, grabbing translates, rotating
/// rotates and scaling scales each object, whatever and however many objects are
/// selected; a whole-selection kind (`Spread`, `Revolve`, `Dilate`) is started only when
/// the selection is treated as a whole, and the setting never outlives the operation.
pub proof fn lemma_initiation_per_object_unless_collective(transform: Transform, collectively: bool, selections: Seq<Selection>)
    ensures
        spec_initiation_for(Transform::Grab, false, selections).0 == Some(InitiationKind::Translate),
        spec_initiation_for(Transform::Rotate, false, selections).0 == Some(InitiationKind::Rotate),
        spec_initiation_for(Transform::Scale, false, selections).0 == Some(InitiationKind::Scale),
        spec_initiation_for(transform, collectively, selections).0 matches Some(kind) && (
        kind is Spread || kind is Revolve || kind is Dilate) ==> collectively,
        !spec_initiation_for(transform, collectively, selections).1,
{
}

/// What grabbing, rotating or scaling the selection starts, and whether the next
/// operation is still to treat the selection as a whole (it never is afterwards).
pub fn initiation_for(transform: Transform, collectively: bool, selections: &[Selection]) -> (result: (Option<InitiationKind>, bool))
    ensures
        result == spec_initiation_for(transform, collectively, selections@),
{
    if collectively {
        let has_center = selected_squids(selections).len() > 0;
        let started = if has_center {
            Some(match transform {
                Transform::Grab => InitiationKind::Spread,
                Transform::Rotate => InitiationKind::Revolve,
                Transform::Scale => InitiationKind::Dilate,
            })
        } else {
            None
        };
        (started, false)
    } else {
        (
            Some(match transform {
                Transform::Grab => InitiationKind::Translate,
                Transform::Rotate => InitiationKind::Rotate,
                Transform::Scale => InitiationKind::Scale,
            }),
            false,
        )
    }
}

/// Records a copy of the world (`Ocean::clone`) as the newest snapshot of the history
/// and makes it current, as `History::push` does; the world itself is left as it is.
pub fn add_history_marker<S: Clone>(history: &mut History<Ocean<S>>, ocean: &Ocean<S>)
    ensures
        exists|copy: Ocean<S>| {
            &&& #[trigger] cloned(*ocean, copy)
            &&& final(history).snapshots() == pushed_snapshots(
                old(history).snapshots(),
                old(history).position(),
                if old(history).snapshots().len() == 0 { final(history).snapshots()[0] } else { copy },
                copy,
            )
        },
        old(history).snapshots().len() == 0 ==> call_ensures(Ocean::<S>::default, (), final(history).snapshots()[0]),
        final(history).position() == final(history).snapshots().len() - 1,
{
    let copy = ocean.clone();
    assert(cloned(*ocean, copy));
    history.push(copy);
}

/// Steps the history back and, when there was a snapshot to step back to, makes the world
/// a copy of it; at the oldest snapshot nothing changes.
pub fn undo<S: Clone>(history: &mut History<Ocean<S>>, ocean: &mut Ocean<S>)
    ensures
        final(history).snapshots() == old(history).snapshots(),
        final(history).position() == undo_position(old(history).position()),
        old(history).position() > 0 ==> cloned(old(history).snapshots()[final(history).position()], *final(ocean)),
        old(history).position() == 0 ==> *final(ocean) == *old(ocean),
{
    if let Some(previous) = history.undo() {
        *ocean = previous;
    }
}

/// Steps the history forward and, when there was a snapshot to step forward to, makes
/// the world a copy of it; at the newest snapshot nothing changes.
pub fn redo<S: Clone>(history: &mut History<Ocean<S>>, ocean: &mut Ocean<S>)
    ensures
        final(history).snapshots() == old(history).snapshots(),
        final(history).position() == redo_position(old(history).snapshots().len() as int, old(history).position()),
        old(history).position() + 1 < old(history).snapshots().len() ==> cloned(
            old(history).snapshots()[final(history).position()],
            *final(ocean),
        ),
        old(history).position() + 1 >= old(history).snapshots().len() ==> *final(ocean) == *old(ocean),
{
    if let Some(next) = history.redo() {
        *ocean = next;
    }
}

/// The objects selected as a whole that still exist, in selection order.
pub open spec fn spec_selected_existing<S>(ocean: Ocean<S>, selections: Seq<Selection>) -> Seq<SquidRef> {
    whole_selections(selections).filter(|squid: SquidRef| ocean.objects().contains_key(squid))
}

/// The objects selected as a whole that still exist, in selection order: the objects that
/// duplicating the selection copies.
pub fn selected_existing<S>(ocean: &Ocean<S>, selections: &[Selection]) -> (squids: Vec<SquidRef>)
    ensures
        squids@ == spec_selected_existing(*ocean, selections@),
{
    let whole = selected_squids(selections);
    let ghost exists_now = |squid: SquidRef| ocean.objects().contains_key(squid);
    let mut squids: Vec<SquidRef> = Vec::new();
    let mut i: usize = 0;
    while i < whole.len()
        invariant
            i <= whole@.len(),
            exists_now == (|squid: SquidRef| ocean.objects().contains_key(squid)),
            squids@ == whole@.take(i as int).filter(exists_now),
        decreases whole@.len() - i,
    {
        proof {
            reveal_with_fuel(Seq::filter, 1);
            assert(whole@.take(i + 1).drop_last() =~= whole@.take(i as int));
        }
        if ocean.get(whole[i]).is_some() {
            squids.push(whole[i]);
        }
        i = i + 1;
    }
    proof {
        assert(whole@.take(i as int) =~= whole@);
    }
    squids
}

/// `objects` with each of `values` added under the reference at the same place in
/// `references`, in order.
pub open spec fn with_all<S>(objects: Map<SquidRef, S>, references: Seq<SquidRef>, values: Seq<S>) -> Map<SquidRef, S>
    decreases references.len(),
{
    if references.len() == 0 {
        objects
    } else {
        with_all(objects, references.drop_last(), values.drop_last()).insert(references.last(), values.last())
    }
}

/// Adds the copies of the duplicated objects, one after another, each as `insert` does
/// (dropping the selections of objects that no longer exist, then putting it on top of the
/// current layer), and then selects exactly the copies, as a whole. Returns their
/// references, in the order of `duplicates`.
pub fn add_duplicates<S>(ocean: &mut Ocean<S>, selections: &mut Vec<Selection>, duplicates: Vec<S>) -> (created: Vec<SquidRef>)
    requires
        old(ocean).references_left() >= duplicates@.len(),
    ensures
        created@.len() == duplicates@.len(),
        forall|j: int| 0 <= j < created@.len() ==> (#[trigger] created@[j]).0 == u64::MAX - old(ocean).references_left() + j,
        forall|j: int| 0 <= j < created@.len() ==> !old(ocean).objects().contains_key(#[trigger] created@[j]),
        final(ocean).objects() == with_all(old(ocean).objects(), created@, duplicates@),
        final(ocean).current() == old(ocean).current(),
        final(ocean).layer_list().len() == old(ocean).layer_list().len(),
        forall|l: int| 0 <= l < old(ocean).layer_list().len() ==> {
            &&& (#[trigger] final(ocean).layer_list()[l]).name@ == old(ocean).layer_list()[l].name@
            &&& final(ocean).layer_list()[l].squids@ == if l == old(ocean).current() {
                created@.reverse() + old(ocean).layer_list()[l].squids@
            } else {
                old(ocean).layer_list()[l].squids@
            }
        },
        final(ocean).lists_exactly_its_objects(),
        final(ocean).references_left() == old(ocean).references_left() - duplicates@.len(),
        final(selections)@ == created@.map_values(|squid: SquidRef| Selection { squid_id: squid, limb_id: None }),
{
    let ghost before = *ocean;
    let ghost values = duplicates@;
    let ghost cur = before.current();
    let mut duplicates = duplicates;
    assert(values.len() == duplicates.len());
    let mut created: Vec<SquidRef> = Vec::new();
    let mut i: usize = 0;
    proof {
        assert(values.take(0) =~= Seq::<S>::empty());
        assert forall|l: int| 0 <= l < before.layer_list().len() implies (#[trigger] before.layer_list()[l]).squids@ == if l == cur {
            created@.reverse() + before.layer_list()[l].squids@
        } else {
            before.layer_list()[l].squids@
        } by {
            assert(created@.reverse() + before.layer_list()[l].squids@ =~= before.layer_list()[l].squids@);
        }
    }
    while duplicates.len() > 0
        invariant
            i + duplicates@.len() == values.len(),
            values.len() <= usize::MAX,
            duplicates@ == values.skip(i as int),
            created@.len() == i,
            before.references_left() >= values.len(),
            forall|j: int| 0 <= j < i ==> (#[trigger] created@[j]).0 == u64::MAX - before.references_left() + j,
            forall|j: int| 0 <= j < i ==> !before.objects().contains_key(#[trigger] created@[j]),
            ocean.objects() == with_all(before.objects(), created@, values.take(i as int)),
            forall|r: SquidRef| before.objects().contains_key(r) ==> #[trigger] ocean.objects().contains_key(r),
            ocean.current() == cur,
            ocean.layer_list().len() == before.layer_list().len(),
            forall|l: int| 0 <= l < before.layer_list().len() ==> {
                &&& (#[trigger] ocean.layer_list()[l]).name@ == before.layer_list()[l].name@
                &&& ocean.layer_list()[l].squids@ == if l == cur {
                    created@.reverse() + before.layer_list()[l].squids@
                } else {
                    before.layer_list()[l].squids@
                }
            },
            ocean.references_left() == before.references_left() - i,
            i == 0 ==> *ocean == before,
            i > 0 ==> ocean.lists_exactly_its_objects(),
        decreases duplicates@.len(),
    {
        let value = duplicates.remove(0);
        let ghost prior = *ocean;
        let reference = insert(ocean, selections, value);
        proof {
            let n = i as int;
            assert(value == values[n]);
            assert(duplicates@ == values.skip(n + 1));
            let grown = created@.push(reference);
            assert(grown.drop_last() =~= created@);
            assert(values.take(n + 1).drop_last() =~= values.take(n));
            assert(values.take(n + 1).last() == value);
            assert(!before.objects().contains_key(reference));
            assert forall|l: int| 0 <= l < before.layer_list().len() implies (#[trigger] ocean.layer_list()[l]).squids@ == if l == cur {
                grown.reverse() + before.layer_list()[l].squids@
            } else {
                before.layer_list()[l].squids@
            } by {
                if l == cur {
                    assert(grown.reverse() =~= seq![reference] + created@.reverse());
                    assert(seq![reference] + (created@.reverse() + before.layer_list()[l].squids@) =~= grown.reverse() + before.layer_list()[l].squids@);
                }
            }
        }
        created.push(reference);
        i = i + 1;
    }
    proof {
        assert(values.take(i as int) =~= values);
        if i == 0 {
            use_type_invariant(&*ocean);
            ocean.lemma_lists_exactly_its_objects();
        }
    }
    let mut chosen: Vec<Selection> = Vec::new();
    let mut k: usize = 0;
    while k < created.len()
        invariant
            k <= created@.len(),
            chosen@ == created@.take(k as int).map_values(|squid: SquidRef| Selection { squid_id: squid, limb_id: None }),
        decreases created@.len() - k,
    {
        chosen.push(Selection { squid_id: created[k], limb_id: None });
        k = k + 1;
        assert(chosen@ =~= created@.take(k as int).map_values(|squid: SquidRef| Selection { squid_id: squid, limb_id: None }));
    }
    assert(created@.take(k as int) =~= created@);
    *selections = chosen;
    created
}

} // verus!
