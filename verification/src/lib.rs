//! Core of a disk-space dashboard: directory size aggregation, reversible
//! deletion through a trash staging area, and the selection workflow that
//! guards irreversible removals.
//!
//! The library touches neither the file system nor other programs. Every
//! operation that needs them is a job: it asks the host program for one
//! thing at a time, and the host's reply is fed back in (see [`host`]). What
//! the library learns from its surroundings by itself, the user's
//! directories, comes in through [`platform`].

pub mod cleanup;
pub mod dashboard;
pub mod host;
pub mod order;
pub mod path;
pub mod platform;
pub mod scanner;
pub mod session;
pub mod system;
pub mod text;
pub mod theme;
pub mod trash;
pub mod units;
pub mod world;
