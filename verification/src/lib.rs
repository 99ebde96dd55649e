//! INDI-driven solar and planetary imaging: frames, recording, guiding and the worker's rules.

pub mod app;
pub mod bus;
pub mod bytes;
pub mod ephemeris;
pub mod focus;
pub mod frame;
pub mod guiding;
pub mod indi;
pub mod recorder;
pub mod scalar;
pub mod text;
pub mod worker;
