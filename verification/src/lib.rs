//! Versioned, hand-written schema-migration scripts, grouped into projects
//! and applied to a database in a controlled order.
//!
//! A project is a named, ordered list of changes. A change is a pair of
//! scripts, one to apply it and one to revert it, with a timing and an
//! identity hash that names its directory on disk. A packaged project
//! carries the scripts inline; it is what gets published and what a run
//! executes.
//!
//! The library decides and computes; it reads no file and talks to no
//! server. Its functions take what was read and say what is to be written,
//! deleted, shown or executed.
//!
//! - [`identity`]: identity hashes.
//! - [`project`], [`change`]: the data model and the operations that keep
//!   a project's list.
//! - [`execute`]: the order in which scripts run, simulation and runs.
//! - [`package`]: packaged projects and the names under which they are
//!   published.
//! - [`command`], [`config`], [`error`]: the command line, the
//!   configuration and the errors.
//! - [`text`]: the string utilities that the rest is built on.

pub mod change;
pub mod command;
pub mod config;
pub mod error;
pub mod execute;
pub mod identity;
pub mod package;
pub mod project;
pub mod text;
