//! Sound: the settings of the encoder, the frames that samples are gathered into, and recordings.
pub mod controller;
pub mod framer;
pub mod laws;
pub mod recording;
pub mod ring;
pub mod settings;
