//! A small localization service: dictionaries of translated words, one per
//! language, and a lookup that falls back to the key that was asked for.
//!
//! Dictionaries are written in a textual notation whose grammar is given, as
//! functions on sequences of characters, in [`grammar`]. The executable reader
//! in [`reader`] is proved to compute exactly those functions, and the
//! service in [`service`] is specified over the words that they yield.

pub mod canonical;
pub mod dictionary;
pub mod grammar;
pub mod reader;
pub mod service;

pub use dictionary::{Dictionary, ParseError};
pub use service::{Localization, LocalizationBuilder, LocalizationView};
