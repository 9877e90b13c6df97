//! Core of a coverage-guided, snapshot-based kernel fuzzing system.
//!
//! One emulator instance per worker runs the kernel under test. Inputs go
//! to the guest over a length-prefixed byte-stream transport (`framing`),
//! coverage comes back through a shared-memory map scanned for novelty
//! (`coverage`) or, in trace-only mode, read as a sentinel-delimited PC
//! trace (`trace`). The per-iteration send, await, classify and restore
//! cycle is the executor's state machine (`executor`); the instance's
//! command line, endpoint paths and overlay rewrite are prepared in
//! `instance`, and the emulator's interactive snapshot monitor is spoken
//! to through `monitor`. Around the core sit the guest-side counterpart
//! (`guest`), the drop-in corpus watcher (`watcher`), the subject pool of
//! the status server (`subjects`), the challenge-project metadata
//! (`metadata`, `naming`) and the submission API's data model and
//! validation rules (`iapi`).
//!
//! All I/O stays with the embedding program: these modules decide, and
//! state in their contracts, what every exchange amounts to.

pub mod coverage;
pub mod executor;
pub mod framing;
pub mod guest;
pub mod iapi;
pub mod instance;
pub mod metadata;
pub mod monitor;
pub mod naming;
pub mod subjects;
pub mod text;
pub mod trace;
pub mod watcher;
