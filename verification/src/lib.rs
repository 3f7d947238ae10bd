//! Verified core of the Enpose 6-DoF tracking client API.
//!
//! [Enpose](https://enpose.tech) builds optical tracking systems that
//! deliver precise 6-DoF poses of active markers in real time. This crate
//! holds the parts of the client that decide and compute: the wire
//! protocol ([`protocol`]), the pose batch codec ([`marker_pose`]), the
//! decisions of device discovery ([`devicediscovery`]) and of a pose
//! stream ([`posestream`]), and the values handed across the C interface
//! ([`c_api`]). Sockets, clocks and threads are driven by the caller.

pub mod address;
pub mod bytes;
pub mod c_api;
pub mod devicediscovery;
pub mod marker_pose;
pub mod posestream;
pub mod protocol;

pub use marker_pose::MarkerPose;
pub use protocol::ParsedPacket;
