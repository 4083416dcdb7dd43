//! Runtime core of a 2D scripted-scene engine.
//!
//! The library keeps a live set of renderable entities synchronized with a
//! stream of declarative scene mutations produced by behavior scripts:
//! an identity-keyed render-object synchronizer, a time-gated timeline
//! command interpreter, a script lifecycle runner, a progressive-reveal
//! state for dialogue text, and an achievement catalog.
//!
//! All times are integer milliseconds; positions and scales are carried as
//! the bit patterns of single-precision values, which the library treats as
//! opaque plain data.  Window, GPU, audio and UI plumbing live outside the
//! library and drive it through plain values.

pub mod achievements;
pub mod dialogue;
pub mod game_object;
pub mod input;
pub mod renderer;
pub mod scene_script;
pub mod scripts;
pub mod text;
