//! The inbox: what waits for the user, and how each agent is doing.
pub mod agents;
pub mod model;
pub mod needs_you;
pub mod rules;
