//! The routing table: which physical device feeds which virtual slot.

pub mod table;

pub use table::RoutingTable;
pub mod laws;
