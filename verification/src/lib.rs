//! Verified core of a terminal client that browses lecture slides and
//! downloads them: the catalogue model, the three-column selector with its
//! cascading check marks, the download queue, the login and settings forms,
//! and the application state machine that ties them together.

pub mod input;
pub mod keys;
pub mod keyset;
pub mod list;
pub mod login;
pub mod app;
pub mod cache;
pub mod config;
pub mod download;
pub mod error;
pub mod footer;
pub mod selection;
pub mod selector;
pub mod settings;
pub mod slides;
pub mod state;
pub mod text;
