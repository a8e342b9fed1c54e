//! Verified core of MoFA Studio: provider configuration, user preferences,
//! metrics bookkeeping, audio ring buffering, chat message parsing, log
//! filtering and the decision logic of the ASR dataflow worker.

pub mod text;
pub mod apps;
pub mod providers;
pub mod preferences;
pub mod settings_view;
pub mod audio_buffer;
pub mod metrics;
pub mod voice;
pub mod voice_clone;
pub mod asr;
pub mod asr_screen;
pub mod chat;
pub mod logs;
pub mod pattern;
pub mod role_config;
