//! Verified core of a real-time communication library built around
//! Media over QUIC: media errors, formats and codecs configuration,
//! MoQ object assembly, quality control, signaling rooms and peer discovery.
use vstd::prelude::*;

pub mod assoc;
pub mod capture;
pub mod clock;
pub mod codecs;
pub mod connections;
pub mod discovery;
pub mod error;
pub mod keyed;
pub mod moq;
pub mod participant;
pub mod quality;
pub mod room;
pub mod render;
pub mod session;
pub mod signaling;
pub mod text;
pub mod tracks;
pub mod video;

verus! {

} // verus!
