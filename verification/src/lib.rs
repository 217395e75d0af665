//! The decisions behind the GTM Agent desktop application, which sets up a folder for the marketing
//! of a product and has a coding agent fill it.
//!
//! Nothing here touches a file, a window or another program. The library says what is to be
//! read, written or run, and takes in what came of it; all of it is proved against its contracts.
//!
//! - [`website`] and [`slug`] lead from the address of a website to the name and the folder of its
//!   project, and [`paths`] to the files in it; [`windows`] joins paths as Windows does.
//! - [`project`] and [`documents`] say what a project begins with.
//! - [`codex`] finds the agent's program and puts together its command lines, and [`transcript`]
//!   reads what it prints.
//! - [`runs`] describes the runs of a project and finds the latest; [`analysis`] leads a run
//!   from its start to its last event.
//! - [`event`] writes events as lines of JSON, and [`error`] words what went wrong.
//! - [`text`] holds what is said of text in general. [`json`] and [`outside`] hold what is taken
//!   from other crates on trust.

pub mod analysis;
pub mod codex;
pub mod documents;
pub mod error;
pub mod event;
pub mod json;
pub mod outside;
pub mod paths;
pub mod project;
pub mod runs;
pub mod slug;
pub mod text;
pub mod transcript;
pub mod website;
pub mod windows;
