//! Chains: API request construction, SQL schemas, question answering and routing.

pub mod api;
pub mod sql;
pub mod documents;
pub mod qa;
pub mod callbacks;
pub mod extraction;
pub mod router;
pub mod composition;
pub mod pipeline;
pub mod template;
pub mod retrieval;
pub mod map_reduce;
pub mod conversation_retrieval;
pub mod conversation;
pub mod structured_output;
