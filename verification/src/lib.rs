//! Manager for local installations of a versioned application bundle.
//!
//! The library resolves which release is "latest" against a remote feed,
//! fetches a version's executable artifact together with a shared icon and
//! desktop-integration file, tracks the user's default-version selection,
//! and keeps the on-disk layout of installed versions consistent.
//!
//! All decisions are made here over plain values; the surrounding binary
//! performs the actual network transfers, directory reads and process
//! spawning, and hands the outcomes to this library.

pub mod disk;
pub mod errors;
pub mod fetch;
pub mod paths;
pub mod launch;
pub mod store;
pub mod template;
pub mod versions;
