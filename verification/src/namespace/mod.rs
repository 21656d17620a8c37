//! Namespace policy: prefix-to-name mapping and collision detection for
//! final tool names.

pub mod collision;
pub mod normalize;

pub use collision::{plan_tools, PlannedBackend, PlannedTool, ToolPlan};
pub use normalize::{mcp_name_from_prefix, public_tool_name, NAMESPACE_SEPARATOR};
