//! The pure heart of Lo, a local voice agent: text chunking for speech, the
//! tool registry and its safety gate, the filesystem sandbox, engine selection,
//! the agent-loop message shaping, and the UI turn state machine.
pub mod asr;
pub mod assembly;
pub mod audit;
pub mod backends;
pub mod brain;
pub mod chars;
pub mod clipboard;
pub mod clock;
pub mod desktop;
pub mod dispatch;
pub mod download;
pub mod engine;
pub mod events;
pub mod fetch;
pub mod files;
pub mod history;
pub mod listen;
pub mod models;
pub mod paths;
pub mod persona;
pub mod sandbox;
pub mod search;
pub mod session;
pub mod settings;
pub mod shell;
pub mod ssrf;
pub mod stream;
pub mod text;
pub mod timer;
pub mod tools;
pub mod types;
