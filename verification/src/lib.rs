//! A synchronized watch party: the verified core of the server's room
//! registry, the per-connection session logic, upload accounting, identifier
//! encoding and the browser client's bookkeeping.
//!
//! Times and playback positions are held as whole microseconds (`i64`); the
//! playback rate is held in thousandths (`1000` is normal speed).

pub mod calls;
pub mod client;
pub mod clock;
pub mod ids;
pub mod laws;
pub mod media;
pub mod playback;
pub mod protocol;
pub mod rooms;
pub mod session;
