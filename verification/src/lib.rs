//! Manifest resolution and asset acquisition for a game launcher: rule
//! evaluation, manifest inheritance merging, classpath construction,
//! launch-argument assembly, download planning with digest gating under
//! a bounded-concurrency policy, and native-payload extraction. Every
//! decision is verified; network, filesystem and process work stay with
//! the caller, which hands plain values in and carries plans out.
pub mod args;
pub mod classpath;
pub mod digest;
pub mod fabric;
pub mod fetcher;
pub mod forge;
pub mod manifest;
pub mod native;
pub mod rules;
pub mod strutil;
