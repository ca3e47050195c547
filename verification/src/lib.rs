//! The verified core of a terminal emulator that lets programs drive a 3D
//! scene: identities, focus, keyboard, inline objects, speech, macros and the
//! wire vocabulary around them.

pub mod ai;
pub mod answers;
pub mod avatar;
pub mod bindings;
pub mod bookmarks;
pub mod budgets;
pub mod capability;
pub mod cli;
pub mod config;
pub mod effects;
pub mod focus;
pub mod frames;
pub mod glb;
pub mod identity;
pub mod inline;
pub mod keyboard;
pub mod keys;
pub mod macros;
pub mod mouse;
pub mod named;
pub mod number;
pub mod objects;
pub mod osc;
pub mod osc_parser;
pub mod overlay;
pub mod pty;
pub mod query;
pub mod requests;
pub mod screen;
pub mod scene;
pub mod speech;
pub mod stage;
pub mod text;
pub mod tree;
pub mod url;
