//! A 2D game engine's core: the scene / entity / attribute data model, the
//! editor's undo history, the play-mode state machine, the console log and
//! the project layout rules.
use vstd::prelude::*;

pub mod table;
pub mod text;
pub mod order;
pub mod ids;
pub mod ecs;
pub mod history;
pub mod gui_state;
pub mod file_system;
pub mod hierarchy;
pub mod input;
pub mod logger;
pub mod paths;
pub mod project;
pub mod scene_io;
pub mod script_api;
pub mod script_editor;
pub mod script_session;
pub mod runtime;
pub mod physics_setup;
pub mod popup;
pub mod inspector;

verus! {
} // verus!
