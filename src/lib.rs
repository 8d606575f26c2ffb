//! A keyboard-driven personal task tracker: the task model, its display
//! ordering, the calendar cursor and the input-mode state machine.

pub mod date;
pub mod text;
pub mod todo;
pub mod app;
pub mod stats;
pub mod storage;
