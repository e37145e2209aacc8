//! What holds of the coordinator as a whole, whatever the events and the
//! responses are.

pub mod fetches;
pub mod hints;
pub mod policy;
pub mod view;
