//! Channel-side text, audio and delivery rules.

pub mod audio_normalizer;
pub mod clock;
pub mod coalescing;
pub mod file_names;
pub mod html_strip;
pub mod json;
pub mod rate_limit_notifier;
pub mod stranger_response_sanitizer;
pub mod text;
pub mod types;
pub mod whatsapp;
