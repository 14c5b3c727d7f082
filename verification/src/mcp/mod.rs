//! Model Context Protocol integration: conversations with a model, tools the
//! model can call, and the client side of the protocol.

pub mod assistant;
pub mod conversation;
pub mod protocol;
pub mod tools;

