//! Planning and bookkeeping for installing and updating a modpack.
//!
//! The crate decides what an installer has to do (which files to fetch,
//! verify, place or remove, and in which order) and keeps the record of what
//! has been done. It performs no input or output itself: a driver executes the
//! directives that [`installer::Installer`] issues and reports back.
//!
//! - [`config`]: the manifest and its validation.
//! - [`state`]: the stored state of an installation.
//! - [`installer`]: what may run, and the installer that steps through a run.
//! - [`protocol`]: the installer's steps as a state machine.
//! - [`event`]: directives, reports and events.
//! - [`migration`]: the migrations that an update applies.
//! - [`downloader`]: naming and hashing what is downloaded.
//! - [`laws`] and [`drive`]: what holds of runs as a whole.
//! - [`modrinth`], [`launcher`], [`shell`]: decisions for the registry, the
//!   launcher and the graphical shell.
//! - [`version`] and [`text`]: versions and operations on text.

pub mod config;
pub mod downloader;
pub mod drive;
pub mod event;
pub mod installer;
pub mod launcher;
pub mod laws;
pub mod migration;
pub mod modrinth;
pub mod protocol;
pub mod shell;
pub mod state;
pub mod text;
pub mod version;
