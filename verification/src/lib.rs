//! An audio acquisition and multiplexed processing pipeline: a per-source
//! spectrum extractor, a reference-counted multiplexer that shares one
//! capture pipeline among many consumers, a control protocol for attaching,
//! detaching and retargeting, one publication slot per source, and the pure
//! frame-shaping arithmetic consumers use to fit spectra to their geometry.

pub mod audio_devices;
pub mod audio_process;
pub mod audio_updater;
pub mod config;
pub mod data_helpers;
pub mod message;
pub mod messages;
pub mod shared_data;
