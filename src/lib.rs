//! The data model of a Matter endpoint: attributes, clusters, endpoints and the
//! node that routes Interaction Model commands to them, with the On/Off and
//! Level Control clusters.

pub mod access;
pub mod attribute;
pub mod callbacks;
pub mod cluster;
pub mod error;
pub mod level_control;
pub mod node;
pub mod on_off;
pub mod tlv;
