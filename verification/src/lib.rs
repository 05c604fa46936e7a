//! Verified policy core of the Denial compositor: clipboard history and its
//! binary control protocol, the secure-lock authentication state, display
//! power bookkeeping, fingerprint presentation, CPU placement rules, the
//! Flutter embedder's quotas and queues, and the checks of its command-line
//! tools.

pub mod text;
pub mod presentation;
pub mod clipboard;
pub mod authentication;
pub mod cpu_scheduling;
pub mod dpms;
pub mod engine;
pub mod runtime;
pub mod event_loop;
pub mod environment;
pub mod cli;
pub mod ui_tool;
pub mod development_paths;
