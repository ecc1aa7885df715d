//! Decision core of a voice-assistant server for a small smart speaker.
//!
//! The device sends an utterance, and the server answers with a control byte and speech. This
//! library decides what is done: it reads the settings, cuts and converts sound, judges
//! transcripts, keeps the modes of the session, and reads what language models and web
//! services reply. Reading, sending and running other programs are left to its users.

// Text, sound and JSON.
pub mod audio;
pub mod json;
pub mod text;

// What is heard and what is said.
pub mod dictation;
pub mod loopback;
pub mod phrases;
pub mod realtime;
pub mod segment;
pub mod speech;
pub mod volume;

// Settings, prompts and services.
pub mod cli;
pub mod compressor;
pub mod config;
pub mod polling;
pub mod prompts;
pub mod radio;
pub mod replies;
pub mod requests;

// Turns.
pub mod brain;
pub mod modes;
pub mod protocol;
pub mod session;
