//! Decision logic of Auto Voice, a push-to-talk dictation tool.

pub mod app_config;
pub mod asr;
pub mod audio;
pub mod config;
pub mod diarization;
pub mod fonts;
pub mod hotkey_ipc;
pub mod llm;
pub mod lmstudio;
pub mod order;
pub mod osd;
pub mod osd_demo;
pub mod output;
pub mod platform;
pub mod rounding;
pub mod runtime;
pub mod single;
pub mod text;
pub mod transcribe;
pub mod tray;
pub mod ui;
pub mod wave;
pub mod wayland_osd;
