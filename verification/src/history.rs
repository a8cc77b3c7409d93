//! Snapshot-based undo/redo over the scene manager.
//!
//! Every completed editor mutation commits the resulting state. Undo
//! restores the previous committed state; redo walks forward again. The
//! committed states always end with the current one, and at most `LIMIT`
//! of them are kept.
use vstd::prelude::*;
use crate::ecs::SceneManager;
use crate::ecs::scene_manager::SceneManagerView;

verus! {

/// How many committed states are kept.
pub const UNDO_LIMIT: usize = 50;

#[derive(Debug)]
pub struct UndoStack {
    states: Vec<SceneManager>,
    redo: Vec<SceneManager>,
}

/// The history: committed states (oldest first) and undone states (the most
/// recently undone last).
pub struct UndoView {
    pub states: Seq<SceneManagerView>,
    pub redo: Seq<SceneManagerView>,
}

/// The views of a list of scene managers.
pub open spec fn managers(v: Seq<SceneManager>) -> Seq<SceneManagerView> {
    v.map_values(|m: SceneManager| m@)
}

/// Keeps the newest `UNDO_LIMIT` states by dropping the oldest one when
/// there is one too many.
pub open spec fn trimmed(s: Seq<SceneManagerView>) -> Seq<SceneManagerView> {
    if s.len() > UNDO_LIMIT {
        s.drop_first()
    } else {
        s
    }
}

impl UndoView {
    /// The history holds at most `UNDO_LIMIT` committed states.
    pub open spec fn bounded(self) -> bool {
        self.states.len() <= UNDO_LIMIT
    }

    /// The history after committing `s`: it is the newest state and the
    /// undone states are forgotten.
    pub open spec fn commit(self, s: SceneManagerView) -> UndoView {
        UndoView { states: trimmed(self.states.push(s)), redo: Seq::empty() }
    }

    pub open spec fn can_undo(self) -> bool {
        self.states.len() >= 2
    }

    pub open spec fn can_redo(self) -> bool {
        self.redo.len() > 0
    }

    /// The history after an undo, and the state to restore.
    pub open spec fn undo(self) -> (UndoView, Option<SceneManagerView>) {
        if self.states.len() < 2 {
            (self, None)
        } else {
            let rest = self.states.drop_last();
            (UndoView { states: rest, redo: self.redo.push(self.states.last()) }, Some(rest.last()))
        }
    }

    /// The history after a redo, and the state to restore.
    pub open spec fn redo(self) -> (UndoView, Option<SceneManagerView>) {
        if self.redo.len() == 0 {
            (self, None)
        } else {
            let s = self.redo.last();
            (UndoView { states: trimmed(self.states.push(s)), redo: self.redo.drop_last() }, Some(s))
        }
    }
}

impl View for UndoStack {
    type V = UndoView;

    closed spec fn view(&self) -> UndoView {
        UndoView { states: managers(self.states@), redo: managers(self.redo@) }
    }
}

impl Default for UndoStack {
    fn default() -> (r: Self)
        ensures
            r@.states.len() == 0 && r@.redo.len() == 0,
    {
        Self::new()
    }
}

impl UndoStack {
    /// An empty history.
    pub fn new() -> (r: Self)
        ensures
            r@.states.len() == 0 && r@.redo.len() == 0,
    {
        UndoStack { states: Vec::new(), redo: Vec::new() }
    }

    /// Starts a fresh history whose only state is `initial`.
    pub fn reset(&mut self, initial: &SceneManager)
        ensures
            final(self)@.states == seq![initial@],
            final(self)@.redo.len() == 0,
    {
        self.states = vec![initial.clone()];
        self.redo = Vec::new();
        assert(managers(self.states@) =~= seq![initial@]);
        assert(managers(self.redo@) =~= Seq::<SceneManagerView>::empty());
    }

    /// Drops the oldest state when there is one too many.
    fn trim(&mut self)
        ensures
            managers(final(self).states@) == trimmed(managers(old(self).states@)),
            final(self).redo@ == old(self).redo@,
    {
        if self.states.len() > UNDO_LIMIT {
            self.states.remove(0);
            assert(managers(self.states@) =~= managers(old(self).states@).drop_first());
        }
    }

    /// Records the state after a completed mutation.
    pub fn commit(&mut self, state: &SceneManager)
        ensures
            final(self)@ == old(self)@.commit(state@),
    {
        let ghost before = managers(self.states@);
        self.states.push(state.clone());
        assert(managers(self.states@) =~= before.push(state@));
        self.trim();
        self.redo = Vec::new();
        assert(managers(self.redo@) =~= Seq::<SceneManagerView>::empty());
    }

    pub fn can_undo(&self) -> (r: bool)
        ensures
            r == self@.can_undo(),
    {
        self.states.len() >= 2
    }

    pub fn can_redo(&self) -> (r: bool)
        ensures
            r == self@.can_redo(),
    {
        !self.redo.is_empty()
    }

    /// Steps back one committed state; returns the state to restore.
    pub fn undo(&mut self) -> (r: Option<SceneManager>)
        ensures
            final(self)@ == old(self)@.undo().0,
            match r {
                Some(m) => old(self)@.undo().1 == Some(m@),
                None => old(self)@.undo().1 is None,
            },
    {
        if self.states.len() < 2 {
            return None;
        }
        let ghost s0 = managers(self.states@);
        let ghost r0 = managers(self.redo@);
        let current = match self.states.pop() {
            Some(c) => c,
            None => return None,
        };
        assert(managers(self.states@) =~= s0.drop_last());
        self.redo.push(current);
        assert(managers(self.redo@) =~= r0.push(s0.last()));
        let n = self.states.len();
        let restored = self.states[n - 1].clone();
        Some(restored)
    }

    /// Steps forward one undone state; returns the state to restore.
    pub fn redo(&mut self) -> (r: Option<SceneManager>)
        ensures
            final(self)@ == old(self)@.redo().0,
            match r {
                Some(m) => old(self)@.redo().1 == Some(m@),
                None => old(self)@.redo().1 is None,
            },
    {
        let ghost r0 = managers(self.redo@);
        let state = match self.redo.pop() {
            Some(s) => s,
            None => return None,
        };
        assert(managers(self.redo@) =~= r0.drop_last());
        let ghost s0 = managers(self.states@);
        self.states.push(state.clone());
        assert(managers(self.states@) =~= s0.push(state@));
        self.trim();
        Some(state)
    }
}

// ---------------------------------------------------------------- laws

/// Every operation keeps the history within `UNDO_LIMIT` states.
pub proof fn law_history_stays_bounded(u: UndoView, s: SceneManagerView)
    requires
        u.bounded(),
    ensures
        u.commit(s).bounded(),
        u.undo().0.bounded(),
        u.redo().0.bounded(),
{
}

/// After a commit, undo restores the state committed before it, and redo
/// then restores the state just committed.
pub proof fn law_commit_then_undo(u: UndoView, s: SceneManagerView)
    requires
        u.states.len() >= 1,
        u.bounded(),
    ensures
        u.commit(s).undo().1 == Some(u.states.last()),
        u.commit(s).undo().0.redo().1 == Some(s),
        u.commit(s).undo().0.redo().0 == u.commit(s),
{
    let c = u.commit(s);
    assert(c.states.last() == s);
    if u.states.len() == UNDO_LIMIT {
        assert(c.states.drop_last().last() == u.states.last());
    }
    let (v, _) = c.undo();
    assert(v.states.push(s) =~= c.states);
    assert(v.redo.drop_last() =~= c.redo);
    assert(c.states.len() <= UNDO_LIMIT);
}

/// Undo followed by redo gives the history back and restores the state
/// that was current before the undo.
pub proof fn law_undo_then_redo(u: UndoView)
    requires
        u.can_undo(),
        u.bounded(),
    ensures
        u.undo().0.redo().0 == u,
        u.undo().0.redo().1 == Some(u.states.last()),
{
    let (v, _) = u.undo();
    assert(v.states.push(u.states.last()) =~= u.states);
    assert(v.redo.drop_last() =~= u.redo);
}

/// A commit forgets the undone states: nothing can be redone after it.
pub proof fn law_commit_clears_redo(u: UndoView, s: SceneManagerView)
    ensures
        !u.commit(s).can_redo(),
        u.commit(s).redo().1 is None,
{
}

} // verus!
