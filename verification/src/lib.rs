//! Planning logic of the Kelpie flight planner's main window: the flight plan
//! model that the plan view edits, the tree rows that show it, the entry
//! validation of the preference dialogs, and the integer bookkeeping of the
//! map renderers.
use vstd::prelude::*;

pub mod aircraft;
pub mod list_models;
pub mod map_data;
pub mod plan;
pub mod plan_view;
pub mod search;
pub mod text;
pub mod tree;
pub mod window;
pub mod world_map;

pub use text::{entry_disallow, is_non_numeric};

verus! {

} // verus!
