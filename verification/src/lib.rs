//! Hardware-health event records and path-prefix routing of credential writes.
pub mod byte_order;
pub mod context;
pub mod endpoint;
pub mod events;
pub mod routing;
