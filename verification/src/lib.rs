//! Verified core of a flight-data query tool: the asynchronous execution
//! orchestrator's state machine, and the natural-language query agent's
//! path from raw model output to validated request parameters. Network
//! calls, the GUI surface, and file handling live outside; they drive the
//! transitions and readers here with plain values.

pub mod agent;
pub mod chat;
pub mod clock;
pub mod config;
pub mod json;
pub mod llm;
pub mod orchestrator;
pub mod params;
pub mod preset;
pub mod state;
pub mod strutil;
