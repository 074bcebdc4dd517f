//! A verified model of a CPU-emulator binding layer: the state an engine
//! handle stands for and the callback bridge that forwards native events
//! to user-supplied hooks.
//!
//! `engine` holds the state model — register file, mapped memory
//! regions, hook table, contexts — with a contract on every operation of
//! the raw surface that decides something: which accesses succeed, which
//! error code comes back, which hooks an event reaches.  `bridge` holds
//! the hook holder and one proxy per hook category, each verified to
//! invoke the user's hook exactly on the event the native layer reported
//! and to translate its result unchanged.  `recorder` is a hook that
//! only observes, for checking the wiring.  `types` holds the shared
//! value types and the error taxonomy.  The raw FFI surface itself —
//! extern declarations and the unsafe trampolines around these decisions
//! — is not verifiable and lives outside this library.

pub mod bridge;
pub mod engine;
pub mod recorder;
pub mod types;
