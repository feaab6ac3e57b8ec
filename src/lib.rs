//! Coordination of a multi-party powers-of-tau setup ceremony: artifact
//! naming and the storage manifest, the state of a round and its chunks, the
//! coordinator's state machine and its HTTP answers, the ceremony's settings
//! and file layout, the verifier client's requests and loop, and field
//! polynomial helpers used by the proving side.

pub mod errors;
pub mod locator;
pub mod manifest;
pub mod round;
pub mod settings;
pub mod coordinator;
pub mod api;
pub mod authentication;
pub mod client;
pub mod polynomial;
pub mod accumulator;
