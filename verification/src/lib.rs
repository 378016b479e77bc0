use vstd::prelude::*;

pub mod text;
pub mod attachments;
pub mod browser_agent;
pub mod browser_pane;
pub mod demo_bootstrap;
pub mod files;
pub mod inbox;
pub mod key_chips;
pub mod model_default;
pub mod model_prefetch;
pub mod permission_options;
pub mod pickers;
pub mod proto;
pub mod settings;

verus! {
} // verus!
