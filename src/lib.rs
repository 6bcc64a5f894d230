//! Policy core of a tiling window manager: which window occupies which
//! rectangle, which window holds the input focus, and which command a key
//! chord or pointer event triggers. Display protocols, rendering and device
//! access stay outside; they hand this library plain values and carry out
//! the effects it requests.

pub mod action;
pub mod config;
pub mod focus_decider;
pub mod focused_vec;
pub mod geometry;
pub mod grab;
pub mod keymap;
pub mod layout;
pub mod manage;
pub mod stackset;
pub mod view;
pub mod window;
