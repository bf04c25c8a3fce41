//! Verified core of a mod manager for a desktop game: archive inspection and
//! extraction summaries, a FIFO download queue with progress reporting, and a
//! crash-safe installation protocol that stages, promotes and links a package.
pub mod archive;
pub mod download;
pub mod install;
pub mod pathstr;
pub mod provider;
pub mod vmpak;
pub mod zipio;
