//! The worker: what it does with frames, commands and recordings. It owns the session with the
//! devices; the calls to them are made by its caller.

pub mod commands;
pub mod conduct;
pub mod decode;
pub mod outcomes;
pub mod record;
pub mod replies;
