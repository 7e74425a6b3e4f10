//! Push-to-talk dictation core: transcript normalisation, WAV framing,
//! settings and path layout, credential lookup and the worker's decisions.

pub mod chars;
pub mod text;
pub mod wav;
pub mod keychain;
pub mod config;
pub mod history;
pub mod hotkey;
pub mod model;
pub mod stt;
pub mod worker;
