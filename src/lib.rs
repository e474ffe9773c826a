//! Record-and-replay building blocks for one TLS client session: a seeded
//! randomness source, a time source that logs or replays timestamps, a
//! chunked transcript of socket traffic with a replaying socket, and the
//! retry decision of the plaintext read loop.

pub mod random;
pub mod time;
pub mod transcript;
pub mod session;
