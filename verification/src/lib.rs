//! Core logic of a multi-process editor application: single-instance
//! coordination over named OS objects, the bounded message channel that
//! forwards command-line invocations to the running instance, and the
//! supporting data models (game grid, breakpoints, debugger variable index,
//! chat protocol types, theme colors, settings).

pub mod assistant;
pub mod breakpoints;
pub mod channel;
pub mod chars;
pub mod edit_ops;
pub mod instance;
pub mod listener;
pub mod message;
pub mod relay;
pub mod settings;
pub mod tetris;
pub mod theme;
pub mod tsx;
pub mod variables;
