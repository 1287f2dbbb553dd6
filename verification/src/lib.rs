//! SuperVox: the verified core of a voice-powered call assistant.
//!
//! The library holds the decisions of the assistant: how speech is cut into
//! sentences and segments, how the call history is filtered and searched,
//! how key presses and audio events move the interface from one state to the
//! next, and how configuration, prompts and protocol frames are built.
//! Everything that talks to devices, files or the network lives outside it.
pub mod text;
pub mod sentences;
pub mod vad;
pub mod call;
pub mod ranking;
pub mod tags;
pub mod history;
pub mod search;
pub mod clock;
pub mod context;
pub mod stats;
pub mod voice;
pub mod live;
pub mod navigation;
pub mod realtime;
pub mod help;
pub mod prompts;
pub mod transcribe;
pub mod laws;
pub mod intelligence;
pub mod reports;
pub mod export;
pub mod speakers;
