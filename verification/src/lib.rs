//! The verified core of a terminal assistant that turns natural-language
//! requests into shell commands by delegating to an external AI
//! command-line tool.
//!
//! The library holds everything that decides: the interactive session
//! state machine and its asynchronous query lifecycle ([`app`]), provider
//! resolution and the three dispatch protocols ([`provider`]), the
//! privacy-gated context builder ([`context`]), the persisted transcript
//! and prompt-history rules ([`session`]), the settings text ([`settings`]),
//! key decoding ([`events`]) and the editor-integration context ([`nvim`]).
//! Files, subprocesses, the clipboard and the terminal stay outside; the
//! surrounding program hands their raw values in and performs the effects
//! handed back.
pub mod app;
pub mod context;
pub mod events;
pub mod nvim;
pub mod provider;
pub mod session;
pub mod settings;
pub mod text;
