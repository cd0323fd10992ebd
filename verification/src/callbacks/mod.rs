//! Callback phases and handlers that record the execution lifecycle.

pub mod manager;
