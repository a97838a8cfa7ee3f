//! Verified core of a control-plane REST client: request descriptors and
//! their factory, an in-flight request registry with cancellation and reset,
//! response post-processing, and the decision logic of a link-state monitor.

pub mod offline;
pub mod relay_list;
pub mod rest;
pub mod service;
