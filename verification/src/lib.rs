//! Core logic of a desktop reader for GitHub activity: configuration
//! validation, saved query documents, GitHub response shaping and the
//! decisions of the application's state machine.

pub mod text;
pub mod encoding;
pub mod models;
pub mod config;
pub mod ordering;
pub mod saved_query_io;
pub mod github;
pub mod app;

use vstd::prelude::*;

verus! {

/// The title of the application window.
pub const APP_TITLE: &'static str = "Hello World";

/// The placeholder window.
#[derive(Clone, Copy, Debug, Default, PartialEq, Eq)]
pub struct HelloWorldApp;

impl HelloWorldApp {
    /// The heading the placeholder window shows.
    pub fn heading(&self) -> (r: &'static str)
        ensures
            r@ == "Hello, world!"@,
    {
        "Hello, world!"
    }
}

} // verus!
