use vstd::prelude::*;

verus! {

/// The most snapshots a history keeps; the oldest is dropped to make room.
pub const MAX_HISTORY: usize = 100;

/// An undo/redo history of snapshots of the document.
///
/// `history[time_travel]` is the snapshot the document currently matches;
/// snapshots after it can be redone, snapshots before it can be undone.
pub struct History<T> {
    history: Vec<T>,
    time_travel: usize,
}

/// What the snapshot list becomes when a new snapshot is pushed onto `snapshots`,
/// whose current position is `position`, given the value a fresh history starts with.
pub open spec fn pushed_snapshots<T>(snapshots: Seq<T>, position: int, start: T, value: T) -> Seq<T> {
    let kept = if snapshots.len() == 0 {
        seq![start]
    } else {
        snapshots.take(position + 1)
    };
    let trimmed = if kept.len() >= MAX_HISTORY {
        kept.skip(kept.len() - (MAX_HISTORY - 1))
    } else {
        kept
    };
    trimmed.push(value)
}

/// Where the current position moves on an undo: one step back, unless already at the start.
pub open spec fn undo_position(position: int) -> int {
    if position > 0 { position - 1 } else { position }
}

/// Where the current position moves on a redo: one step forward, unless already at the
/// newest of `len` snapshots.
pub open spec fn redo_position(len: int, position: int) -> int {
    if position + 1 < len { position + 1 } else { position }
}

impl<T> History<T> {
    /// The snapshots held, oldest first.
    pub closed spec fn snapshots(&self) -> Seq<T> {
        self.history@
    }

    /// The index of the snapshot the document currently matches.
    pub closed spec fn position(&self) -> int {
        self.time_travel as int
    }

    /// The position lies on a held snapshot (or is 0 when nothing is held), and no more
    /// than `MAX_HISTORY` snapshots are held; every history is so.
    pub open spec fn in_bounds(&self) -> bool {
        &&& self.snapshots().len() <= MAX_HISTORY
        &&& if self.snapshots().len() == 0 {
            self.position() == 0
        } else {
            0 <= self.position() < self.snapshots().len()
        }
    }

    /// The history's invariant: the position lies on a held snapshot (or is 0 when
    /// nothing is held), and no more than `MAX_HISTORY` snapshots are held.
    #[verifier::type_invariant]
    pub closed spec fn wf(&self) -> bool {
        &&& self.history@.len() <= MAX_HISTORY
        &&& if self.history@.len() == 0 {
            self.time_travel == 0
        } else {
            self.time_travel < self.history@.len()
        }
    }

    /// An empty history.
    pub fn new() -> (h: Self)
        ensures
            h.snapshots() == Seq::<T>::empty(),
            h.position() == 0,
            h.in_bounds(),
    {
        History { history: Vec::new(), time_travel: 0 }
    }
}

impl<T> Default for History<T> {
    /// An empty history.
    fn default() -> (h: Self)
        ensures
            h.snapshots() == Seq::<T>::empty(),
            h.position() == 0,
            h.in_bounds(),
    {
        History::new()
    }
}

impl<T: Clone + Default> History<T> {
    /// Records `value` as the newest snapshot and makes it current.
    ///
    /// Snapshots after the current one (the redo future) are discarded. A history
    /// that held nothing first records a default snapshot to undo back to. When the
    /// history is full, the oldest snapshots are dropped.
    pub fn push(&mut self, value: T)
        ensures
            old(self).snapshots().len() == 0 ==> call_ensures(T::default, (), final(self).snapshots()[0]),
            final(self).snapshots() == pushed_snapshots(
                old(self).snapshots(),
                old(self).position(),
                if old(self).snapshots().len() == 0 { final(self).snapshots()[0] } else { value },
                value,
            ),
            final(self).position() == final(self).snapshots().len() - 1,
            old(self).in_bounds(),
            final(self).in_bounds(),
    {
        proof {
            use_type_invariant(&*self);
        }
        let mut taken = History::new();
        core::mem::swap(self, &mut taken);
        let History { history: mut history, time_travel: mut time_travel } = taken;
        let ghost old_snapshots = history@;
        let ghost old_position = time_travel as int;
        if history.len() == 0 {
            let start = T::default();
            history.push(start);
        } else {
            while time_travel < history.len() - 1
                invariant
                    0 <= time_travel < history.len() <= old_snapshots.len(),
                    time_travel == old_position,
                    history@ == old_snapshots.take(history@.len() as int),
                decreases history.len(),
            {
                history.pop();
            }
            assert(history@ == old_snapshots.take(old_position + 1));
        }
        let ghost kept = history@;
        assert(kept.len() == 1 ==> kept == seq![kept[0]]);
        assert(kept.skip(0) == kept);
        assert(old_snapshots.len() == 0 ==> kept == seq![history@[0]]);
        while history.len() >= MAX_HISTORY
            invariant
                kept.len() <= MAX_HISTORY,
                time_travel + 1 == history.len() <= kept.len(),
                kept.len() >= MAX_HISTORY ==> history.len() >= MAX_HISTORY - 1,
                kept.len() < MAX_HISTORY ==> history.len() == kept.len(),
                history@ == kept.skip(kept.len() - history.len()),
            decreases history.len(),
        {
            history.remove(0);
            time_travel = time_travel - 1;
        }
        assert(kept.len() < MAX_HISTORY ==> history@ == kept);
        assert(kept.len() >= MAX_HISTORY ==> history@ == kept.skip(kept.len() - (MAX_HISTORY - 1)));
        history.push(value);
        time_travel = history.len() - 1;
        *self = History { history, time_travel };
    }

    /// Steps back to the previous snapshot and returns a copy of it, or `None`
    /// when the current snapshot is the oldest one.
    pub fn undo(&mut self) -> (previous: Option<T>)
        ensures
            final(self).snapshots() == old(self).snapshots(),
            final(self).position() == undo_position(old(self).position()),
            previous is Some <==> old(self).position() > 0,
            previous matches Some(p) ==> cloned(old(self).snapshots()[final(self).position()], p),
            old(self).in_bounds(),
            final(self).in_bounds(),
    {
        proof {
            use_type_invariant(&*self);
        }
        if self.time_travel > 0 {
            self.time_travel = self.time_travel - 1;
            Some(self.history[self.time_travel].clone())
        } else {
            None
        }
    }

    /// Steps forward to the next snapshot and returns a copy of it, or `None`
    /// when the current snapshot is the newest one.
    pub fn redo(&mut self) -> (next: Option<T>)
        ensures
            final(self).snapshots() == old(self).snapshots(),
            final(self).position() == redo_position(
                old(self).snapshots().len() as int,
                old(self).position(),
            ),
            next is Some <==> old(self).position() + 1 < old(self).snapshots().len(),
            next matches Some(n) ==> cloned(old(self).snapshots()[final(self).position()], n),
            old(self).in_bounds(),
            final(self).in_bounds(),
    {
        proof {
            use_type_invariant(&*self);
        }
        if self.time_travel + 1 < self.history.len() {
            self.time_travel = self.time_travel + 1;
            Some(self.history[self.time_travel].clone())
        } else {
            None
        }
    }
}

/// Undoing and then redoing returns to the snapshot one started from.
pub proof fn lemma_undo_then_redo(len: int, position: int)
    requires
        0 < position < len,
    ensures
        redo_position(len, undo_position(position)) == position,
{
}

/// Redoing and then undoing returns to the snapshot one started from.
pub proof fn lemma_redo_then_undo(len: int, position: int)
    requires
        0 <= position,
        position + 1 < len,
    ensures
        undo_position(redo_position(len, position)) == position,
{
}

/// A push leaves nothing to redo, keeps the history within `MAX_HISTORY` snapshots,
/// makes the pushed value current, and an undo right after it returns to the snapshot
/// that was current before the push.
pub proof fn lemma_push_then_undo<T>(snapshots: Seq<T>, position: int, start: T, value: T)
    requires
        snapshots.len() <= MAX_HISTORY,
        snapshots.len() == 0 ==> position == 0,
        snapshots.len() > 0 ==> 0 <= position < snapshots.len(),
    ensures
        ({
            let pushed = pushed_snapshots(snapshots, position, start, value);
            let newest = pushed.len() - 1;
            &&& 2 <= pushed.len() <= MAX_HISTORY
            &&& pushed[newest] == value
            &&& redo_position(pushed.len() as int, newest) == newest
            &&& pushed[undo_position(newest)] == if snapshots.len() == 0 {
                start
            } else {
                snapshots[position]
            }
        }),
{
}

/// True when cloning a `T` gives back a value equal to the original.
pub open spec fn clones_exactly<T: Clone>() -> bool {
    forall|a: T, b: T| #[trigger] cloned(a, b) ==> a == b
}

/// For a type whose clone is exact, an undo right after a push hands back the snapshot
/// that was current before the push (the start value, for a history that held nothing):
/// `returned` is what `undo` returns there, a clone of the snapshot it steps back to.
pub proof fn lemma_push_then_undo_gives_back<T: Clone>(
    snapshots: Seq<T>,
    position: int,
    start: T,
    value: T,
    returned: T,
)
    requires
        clones_exactly::<T>(),
        snapshots.len() <= MAX_HISTORY,
        snapshots.len() == 0 ==> position == 0,
        snapshots.len() > 0 ==> 0 <= position < snapshots.len(),
        cloned(
            pushed_snapshots(snapshots, position, start, value)[undo_position(
                pushed_snapshots(snapshots, position, start, value).len() - 1,
            )],
            returned,
        ),
    ensures
        returned == if snapshots.len() == 0 {
            start
        } else {
            snapshots[position]
        },
{
    lemma_push_then_undo(snapshots, position, start, value);
}

/// For a type whose clone is exact, undoing from a snapshot that has one before it hands
/// back that earlier snapshot, and a redo right after hands back the snapshot one started
/// from: `undone` and `redone` are what `undo` and `redo` return there.
pub proof fn lemma_undo_then_redo_gives_back<T: Clone>(snapshots: Seq<T>, position: int, undone: T, redone: T)
    requires
        clones_exactly::<T>(),
        0 < position < snapshots.len(),
        cloned(snapshots[undo_position(position)], undone),
        cloned(snapshots[redo_position(snapshots.len() as int, undo_position(position))], redone),
    ensures
        undone == snapshots[position - 1],
        redone == snapshots[position],
{
}

} // verus!
