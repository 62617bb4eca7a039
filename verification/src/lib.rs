//! A BitTorrent tracker core: the swarm registry and the announce protocol,
//! stated over plain values and proved against mathematical models.
pub mod announce;
pub mod laws;
pub mod peer;
pub mod session;
pub mod store;
pub mod swarm;
