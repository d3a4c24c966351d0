//! Core of a terminal manager: connection profiles, terminal settings, sessions and
//! the panes they are shown in.

pub mod app;
pub mod app_laws;
pub mod command;
pub mod config;
pub mod connection;
pub mod draft;
pub mod ids;
pub mod image;
pub mod keys;
pub mod order;
pub mod panes;
pub mod screen;
pub mod seqs;
pub mod sidebar;
pub mod ssh;
pub mod store_laws;
pub mod terminal;
pub mod text;
pub mod window;
