//! Game-logic core of a small exploration game: the input vocabulary and
//! its bindings, the party roster, script UI requests and menu
//! navigation, teleporter arming and the scene lifecycle, walkable cell
//! grids, animation choice, speech-bubble phases, the scene editor's
//! state, screen scaling, and the debug request folder.

pub mod text;

pub mod input;
pub mod keys;
pub mod bindings;
pub mod scripts;
pub mod party;
pub mod scene;
pub mod scene_flow;
pub mod teleport;
pub mod ui;
pub mod ui_requests;
pub mod animation;
pub mod bubble;
pub mod editor;
pub mod screen;
pub mod debug_shot;
