//! Tokenized fractional-investment ledger for media assets.
//!
//! A creator offers a fixed supply of shares in a pre-recorded video or an
//! upcoming live stream. Buyers purchase shares at a time-dependent price,
//! the creator deposits revenue, and (for videos) investors claim a pro-rata
//! part of the undistributed revenue.
//!
//! The host environment — caller identity, the clock, and the keyed
//! persistent store — is an external collaborator: every operation here takes
//! the caller and the current time as plain values and works on the state
//! record of a single asset. The host keys one such record per asset id and
//! serializes the calls against it.

pub mod errors;
pub mod ledger;
pub mod live_stream;
pub mod video;
