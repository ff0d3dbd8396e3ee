//! The terminal core of Sample Terminal: ANSI parsing, the screen grid with its
//! scrollback and damage tracking, render snapshots, selections, cursor blink and
//! keyboard input translation.
pub mod input;
pub mod cells;
pub mod terminal_buffer;
pub mod app_state;
pub mod atlas;
pub mod shell;
