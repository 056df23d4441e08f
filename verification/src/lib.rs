//! A self-describing container that bundles platform-specific payloads,
//! together with the checks that pick the one payload meant for the host.
//!
//! The container starts with a fixed header, followed by a table of fixed-size
//! section records, followed by the payload bytes that the records point at.
//! Every record carries a SHA-256 fingerprint of its payload. The fingerprint
//! detects accidental or careless tampering; it travels in the same file as the
//! data it covers, so it does not resist someone who can rewrite the whole file.
//!
//! The core of the crate:
//!
//! - [`format`] writes and reads the header and the section records;
//! - [`digest`] computes and compares fingerprints;
//! - [`platform`] tells which section type a platform loads;
//! - [`runner`] loads a container, scans its table and selects a section;
//! - [`serialk`] packs files into the textual bundle, a format of its own.
//!
//! Around it stand the decisions of the tools that work with containers:
//! [`kdv`] keeps recorded fingerprints, [`watcher`] decides what a change of a
//! watched file means, [`hfs`] and [`process_list`] look for forbidden
//! processes, [`permission_manager`] grants permission by password, and
//! [`arch`] and [`kernel_value`] describe the host.
//!
//! Nothing in this crate reads a file, a clock or a variable of the process. Whoever
//! calls it hands in bytes and text, and carries out what it decides.

pub mod arch;
pub mod digest;
pub mod endian;
pub mod format;
pub mod hfs;
pub mod kdv;
pub mod kernel_value;
pub mod lines;
pub mod modular;
pub mod numbers;
pub mod permission_manager;
pub mod platform;
pub mod process_list;
pub mod runner;
pub mod serialk;
pub mod table;
pub mod text;
pub mod watcher;
pub mod words;
