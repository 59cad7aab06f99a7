//! A peer-to-peer node core: a view of the canonical header chain, a content
//! store kept consistent with that chain across reorganizations, the driver
//! that routes chain notifications into the store, and the supervisor that
//! keeps a minimum number of outbound peer sessions alive.
pub mod trunk;
pub mod store;
pub mod driver;
pub mod connect;
