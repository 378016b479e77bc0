//! Settings pages' logic: the Servers page.
pub mod servers;
