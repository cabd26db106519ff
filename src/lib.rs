//! Addressing of logical sub-devices ("slaves") multiplexed over one
//! connection, and a shared context that holds at most one live connection
//! and replaces it on demand.

pub mod slave;
pub mod context;
