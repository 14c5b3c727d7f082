//! A workflow orchestration library: nodes run in prep / exec / post phases
//! and hand back an action, and a flow follows the successor registered for
//! that action.  This crate holds the decisions of that engine, its data
//! model, and the state kept by its conversation and tool-calling nodes,
//! each with its contract.

pub mod async_node;
mod clock;
pub mod errors;
pub mod json;
pub mod marker_traits;
pub mod mcp;
pub mod strmap;
pub mod sync;

pub use async_node::{AsyncFlow, AsyncNodeImpl};
pub use errors::{FlowError, FlowResult};
pub use json::{JsonNumber, JsonValue};
pub use marker_traits::{AsyncContext, SyncContext};
pub use mcp::conversation::{ConversationManager, ConversationMessage, Role, ToolCallInfo};
pub use mcp::protocol::MCPClientConfig;
pub use mcp::tools::{Tool, ToolRegistry};
pub use strmap::StrMap;
pub use sync::{Action, BaseNode, Flow, FlowStep, Params, Retry, RetryStep, Shared};
