//! The decision core of a UIKit backend for Day: every table, queue and rule the backend keeps,
//! as plain data with contracts. Native objects appear as addresses, closures as tokens and
//! coordinates as opaque bit patterns; the crate that links UIKit reports what it sees, and
//! performs what these functions answer.

pub mod types;
pub mod event;
pub mod modal;
pub mod idle;
pub mod nav_stack;
pub mod split;
pub mod menu;
pub mod toolbar;
pub mod control;
pub mod gesture;
pub mod frame;
pub mod tabs;
pub mod nav_menu;
pub mod tree;
pub mod list;
pub mod keys;
pub mod draw;
pub mod font;
pub mod text;
pub mod style;
pub mod anim;
pub mod present;
pub mod scene;
pub mod navs;
pub mod piece;
pub mod uikit;
