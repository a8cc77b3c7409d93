//! The play-mode state machine of the engine.
//!
//! The runtime's engines (physics, rendering, audio, scripting, input) live
//! outside this model; each transition here says what they must do, and
//! what happens to the scene manager and its pre-play snapshot.
use vstd::prelude::*;
use crate::ecs::SceneManager;
use crate::ecs::attribute::{AttributeValue, AttributeValueView};
use crate::ecs::scene::updates_view;
use crate::ecs::scene_manager::SceneManagerView;
use crate::input::InputContext;
use crate::text::owned;

verus! {

#[derive(Debug, Clone, Copy, PartialEq, Eq, Structural)]
pub enum RuntimeState {
    Playing,
    Paused,
    /// A script ended the game (e.g. player death). The final frame stays
    /// on screen; the only way out is Reset.
    Ended,
    Stopped,
}

/// What a transition asks of the engines outside the model.
#[derive(Debug, Clone, Copy, PartialEq, Eq, Structural)]
pub struct RuntimeEffects {
    /// The input context to switch to, if it changes.
    pub input_context: Option<InputContext>,
    pub cleanup_physics: bool,
    pub cleanup_render: bool,
    pub cleanup_audio: bool,
}

/// The play-mode control state: whether the simulation runs, the current
/// state, and the editor state saved when play started.
pub struct RuntimeControl {
    pub dev_state_snapshot: Option<SceneManager>,
    pub running: bool,
    pub state: RuntimeState,
}

pub struct RuntimeControlView {
    pub snapshot: Option<SceneManagerView>,
    pub running: bool,
    pub state: RuntimeState,
}

impl View for RuntimeControl {
    type V = RuntimeControlView;

    open spec fn view(&self) -> RuntimeControlView {
        RuntimeControlView {
            snapshot: match self.dev_state_snapshot {
                Some(m) => Some(m@),
                None => None,
            },
            running: self.running,
            state: self.state,
        }
    }
}

pub open spec fn no_effects() -> RuntimeEffects {
    RuntimeEffects { input_context: None, cleanup_physics: false, cleanup_render: false, cleanup_audio: false }
}

impl RuntimeControlView {
    /// The control state after `set_state(s)` while the scene manager is
    /// `m`, and what the engines must do. Play saves the editor state unless
    /// one is saved already; Stop cleans the physics world.
    pub open spec fn set_state(self, s: RuntimeState, m: SceneManagerView) -> (RuntimeControlView, RuntimeEffects) {
        match s {
            RuntimeState::Playing => (
                RuntimeControlView {
                    snapshot: if self.snapshot is None { Some(m) } else { self.snapshot },
                    running: true,
                    state: s,
                },
                RuntimeEffects { input_context: Some(InputContext::Game), ..no_effects() },
            ),
            RuntimeState::Paused => (
                RuntimeControlView { running: false, state: s, ..self },
                no_effects(),
            ),
            RuntimeState::Ended => (
                RuntimeControlView { running: false, state: s, ..self },
                RuntimeEffects { input_context: Some(InputContext::EngineUI), ..no_effects() },
            ),
            RuntimeState::Stopped => (
                RuntimeControlView { running: false, state: s, ..self },
                RuntimeEffects { input_context: Some(InputContext::EngineUI), cleanup_physics: true, ..no_effects() },
            ),
        }
    }

    /// The scene manager after restoring the saved editor state, if any.
    pub open spec fn restored(self, m: SceneManagerView) -> SceneManagerView {
        match self.snapshot {
            Some(saved) => saved,
            None => m,
        }
    }
}

/// The effects of stopping everything: editor input, all engines cleaned.
pub open spec fn full_cleanup() -> RuntimeEffects {
    RuntimeEffects {
        input_context: Some(InputContext::EngineUI),
        cleanup_physics: true,
        cleanup_render: true,
        cleanup_audio: true,
    }
}

/// The effects of stopping everything.
fn cleanup_everything() -> (r: RuntimeEffects)
    ensures
        r == full_cleanup(),
{
    RuntimeEffects {
        input_context: Some(InputContext::EngineUI),
        cleanup_physics: true,
        cleanup_render: true,
        cleanup_audio: true,
    }
}

impl RuntimeControl {
    /// Stopped, not running, nothing saved.
    pub fn new() -> (r: Self)
        ensures
            r@ == (RuntimeControlView { snapshot: None, running: false, state: RuntimeState::Stopped }),
    {
        RuntimeControl { dev_state_snapshot: None, running: false, state: RuntimeState::Stopped }
    }

    pub fn is_playing(&self) -> (r: bool)
        ensures
            r == (self.state == RuntimeState::Playing),
    {
        matches!(self.state, RuntimeState::Playing)
    }

    pub fn is_paused(&self) -> (r: bool)
        ensures
            r == (self.state == RuntimeState::Paused),
    {
        matches!(self.state, RuntimeState::Paused)
    }

    pub fn get_state(&self) -> (r: RuntimeState)
        ensures
            r == self.state,
    {
        self.state
    }

    /// Switches state. `scene_manager` is the editor state to save when play
    /// starts without a saved one.
    pub fn set_state(&mut self, state: RuntimeState, scene_manager: &SceneManager) -> (r: RuntimeEffects)
        ensures
            (final(self)@, r) == old(self)@.set_state(state, scene_manager@),
    {
        match state {
            RuntimeState::Playing => {
                if self.dev_state_snapshot.is_none() {
                    self.dev_state_snapshot = Some(scene_manager.clone());
                }
                self.running = true;
                self.state = state;
                RuntimeEffects {
                    input_context: Some(InputContext::Game),
                    cleanup_physics: false,
                    cleanup_render: false,
                    cleanup_audio: false,
                }
            },
            RuntimeState::Paused => {
                self.running = false;
                self.state = state;
                RuntimeEffects { input_context: None, cleanup_physics: false, cleanup_render: false, cleanup_audio: false }
            },
            RuntimeState::Ended => {
                self.running = false;
                self.state = state;
                RuntimeEffects {
                    input_context: Some(InputContext::EngineUI),
                    cleanup_physics: false,
                    cleanup_render: false,
                    cleanup_audio: false,
                }
            },
            RuntimeState::Stopped => {
                self.running = false;
                self.state = state;
                RuntimeEffects {
                    input_context: Some(InputContext::EngineUI),
                    cleanup_physics: true,
                    cleanup_render: false,
                    cleanup_audio: false,
                }
            },
        }
    }

    /// Stops, cleans every engine and restores the editor state saved when
    /// play started (then forgets it, so the next play saves afresh).
    pub fn reset(&mut self, scene_manager: &mut SceneManager) -> (r: RuntimeEffects)
        ensures
            final(self)@ == (RuntimeControlView { snapshot: None, running: false, state: RuntimeState::Stopped }),
            final(scene_manager)@ == old(self)@.restored(old(scene_manager)@),
            r == full_cleanup(),
    {
        self.set_state(RuntimeState::Stopped, scene_manager);
        if let Some(snapshot) = self.dev_state_snapshot.take() {
            *scene_manager = snapshot;
        }
        cleanup_everything()
    }

    /// Stops the game (as `reset`): running off, every engine cleaned, the
    /// saved editor state restored, editor input.
    pub fn stop(&mut self, scene_manager: &mut SceneManager) -> (r: RuntimeEffects)
        ensures
            final(self)@ == (RuntimeControlView { snapshot: None, running: false, state: RuntimeState::Stopped }),
            final(scene_manager)@ == old(self)@.restored(old(scene_manager)@),
            r == full_cleanup(),
    {
        self.running = false;
        self.state = RuntimeState::Stopped;
        if let Some(snapshot) = self.dev_state_snapshot.take() {
            *scene_manager = snapshot;
        }
        cleanup_everything()
    }

    /// Prepares the scene manager for a run: a project without scenes
    /// cannot run; without an active scene, the first scene becomes active.
    pub fn prepare_run(scene_manager: &mut SceneManager) -> (r: Result<(), String>)
        ensures
            match r {
                Ok(()) => old(scene_manager)@.scenes.len() > 0 && if old(scene_manager)@.active() is Some {
                    final(scene_manager)@ == old(scene_manager)@
                } else {
                    final(scene_manager)@ == old(scene_manager)@.with_active(Some(old(scene_manager)@.scenes[0].0))
                },
                Err(e) => old(scene_manager)@.scenes.len() == 0
                    && e@ == "Cannot run: No scenes in project. Create a scene first."@
                    && final(scene_manager)@ == old(scene_manager)@,
            },
    {
        let scenes = scene_manager.list_scene();
        if scenes.len() == 0 {
            return Err(owned("Cannot run: No scenes in project. Create a scene first."));
        }
        let first = scenes[0].0;
        if scene_manager.get_active_scene().is_none() {
            assert(scene_manager@.scenes[0].0 == first);
            match scene_manager.set_active_scene(first) {
                Ok(()) => {},
                Err(e) => return Err(e),
            }
        }
        Ok(())
    }

    /// Play has started: the simulation runs.
    pub fn start_playing(&mut self)
        ensures
            final(self)@ == (RuntimeControlView { running: true, state: RuntimeState::Playing, ..old(self)@ }),
    {
        self.running = true;
        self.state = RuntimeState::Playing;
    }

    /// The frame advances the simulation.
    pub fn simulates(&self) -> (r: bool)
        ensures
            r == (self.running && self.state == RuntimeState::Playing),
    {
        self.running && self.state == RuntimeState::Playing
    }

    /// The frame only repaints the frozen scene.
    pub fn only_paints(&self) -> (r: bool)
        ensures
            r == (!(self.running && self.state == RuntimeState::Playing)
                && (self.state == RuntimeState::Paused || self.state == RuntimeState::Ended)),
    {
        !(self.running && self.state == RuntimeState::Playing)
            && (self.state == RuntimeState::Paused || self.state == RuntimeState::Ended)
    }
}

// ---------------------------------------------------------------- physics results

/// The `f32` with these bits is NaN.
pub open spec fn is_nan_bits(b: u32) -> bool {
    (b & 0x7f80_0000u32) == 0x7f80_0000u32 && (b & 0x007f_ffffu32) != 0
}

/// A physics result is kept when none of its floats is NaN.
pub open spec fn finite_update(u: (u128, u128, AttributeValueView)) -> bool {
    match u.2 {
        AttributeValueView::Float(b) => !is_nan_bits(b),
        AttributeValueView::Vector2(x, y) => !is_nan_bits(x) && !is_nan_bits(y),
        _ => true,
    }
}

fn is_nan(b: u32) -> (r: bool)
    ensures
        r == is_nan_bits(b),
{
    (b & 0x7f80_0000) == 0x7f80_0000 && (b & 0x007f_ffff) != 0
}

/// Drops the physics results that hold a NaN, keeping the others in order.
pub fn filter_finite_updates(updates: Vec<(u128, u128, AttributeValue)>) -> (r: Vec<(u128, u128, AttributeValue)>)
    ensures
        updates_view(r@) == updates_view(updates@).filter(|u: (u128, u128, AttributeValueView)| finite_update(u)),
{
    let ghost p = |u: (u128, u128, AttributeValueView)| finite_update(u);
    let ghost uv = updates_view(updates@);
    let mut kept: Vec<(u128, u128, AttributeValue)> = Vec::new();
    let mut i: usize = 0;
    while i < updates.len()
        invariant
            i <= updates.len(),
            uv == updates_view(updates@),
            p == (|u: (u128, u128, AttributeValueView)| finite_update(u)),
            updates_view(kept@) == uv.take(i as int).filter(p),
        decreases updates.len() - i,
    {
        let (a, b, ref v) = updates[i];
        let ghost before = kept@;
        proof {
            assert(uv.take(i + 1) =~= uv.take(i as int).push(uv[i as int]));
            uv.take(i as int).lemma_filter_push(uv[i as int], p);
        }
        let keep = match v {
            AttributeValue::Float(x) => !is_nan(*x),
            AttributeValue::Vector2(x, y) => !is_nan(*x) && !is_nan(*y),
            _ => true,
        };
        if keep {
            kept.push((a, b, v.clone()));
            assert(updates_view(kept@) =~= updates_view(before).push(uv[i as int]));
        }
        i = i + 1;
    }
    assert(uv.take(i as int) =~= uv);
    kept
}

// ---------------------------------------------------------------- laws

/// Playing, then resetting, gives back the editor state from when play
/// started, whatever the game did to the scenes meanwhile.
pub proof fn law_play_then_reset_restores(c: RuntimeControlView, before: SceneManagerView, during: SceneManagerView)
    requires
        c.snapshot is None,
    ensures
        c.set_state(RuntimeState::Playing, before).0.restored(during) == before,
{
}

/// Pausing and resuming keeps the editor state saved at the first play.
pub proof fn law_pause_resume_keeps_snapshot(c: RuntimeControlView, m1: SceneManagerView, m2: SceneManagerView, m3: SceneManagerView)
    requires
        c.snapshot is None,
    ensures
        c.set_state(RuntimeState::Playing, m1).0
            .set_state(RuntimeState::Paused, m2).0
            .set_state(RuntimeState::Playing, m3).0
            .snapshot == Some(m1),
{
}

/// Game input is on exactly while playing: every transition switches input
/// to the game when it enters Playing and to the editor when it enters Ended
/// or Stopped, and only Paused keeps the input as it was.
pub proof fn law_input_follows_state(c: RuntimeControlView, s: RuntimeState, m: SceneManagerView)
    ensures
        (c.set_state(s, m).1.input_context == Some(InputContext::Game)) == (s == RuntimeState::Playing),
        (c.set_state(s, m).1.input_context is None) == (s == RuntimeState::Paused),
        c.set_state(s, m).0.running == (s == RuntimeState::Playing),
        c.set_state(s, m).0.state == s,
{
}

/// The control state after a run of state changes, the `k`-th made while
/// the scenes are `ms[k]`.
pub open spec fn after_changes(c: RuntimeControlView, ss: Seq<RuntimeState>, ms: Seq<SceneManagerView>) -> RuntimeControlView
    decreases ss.len(),
{
    if ss.len() == 0 || ms.len() == 0 {
        c
    } else {
        after_changes(c.set_state(ss[0], ms[0]).0, ss.drop_first(), ms.drop_first())
    }
}

/// Once the editor state is saved, no change of state replaces it.
proof fn lemma_saved_state_stays(c: RuntimeControlView, ss: Seq<RuntimeState>, ms: Seq<SceneManagerView>)
    requires
        c.snapshot is Some,
    ensures
        after_changes(c, ss, ms).snapshot == c.snapshot,
    decreases ss.len(),
{
    if ss.len() > 0 && ms.len() > 0 {
        lemma_saved_state_stays(c.set_state(ss[0], ms[0]).0, ss.drop_first(), ms.drop_first());
    }
}

/// Reset gives back the scenes as they were at the first Play since the
/// last reset, whatever changes of state (pauses, plays, a game over) and
/// of the scenes came between; reset forgets them, so a second reset right
/// after leaves the scenes as they are.
pub proof fn law_reset_restores_first_play(
    c: RuntimeControlView,
    ss: Seq<RuntimeState>,
    ms: Seq<SceneManagerView>,
    during: SceneManagerView,
    i: int,
)
    requires
        c.snapshot is None,
        ss.len() == ms.len(),
        0 <= i < ss.len(),
        ss[i] == RuntimeState::Playing,
        forall|j: int| 0 <= j < i ==> ss[j] != RuntimeState::Playing,
    ensures
        after_changes(c, ss, ms).restored(during) == ms[i],
        (RuntimeControlView { snapshot: None, running: false, state: RuntimeState::Stopped }).restored(during) == during,
    decreases i,
{
    let c1 = c.set_state(ss[0], ms[0]).0;
    if i == 0 {
        lemma_saved_state_stays(c1, ss.drop_first(), ms.drop_first());
    } else {
        assert(ss[0] != RuntimeState::Playing);
        assert forall|j: int| 0 <= j < i - 1 implies ss.drop_first()[j] != RuntimeState::Playing by {
            assert(ss.drop_first()[j] == ss[j + 1]);
        }
        law_reset_restores_first_play(c1, ss.drop_first(), ms.drop_first(), during, i - 1);
    }
}

} // verus!
