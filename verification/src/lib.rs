//! Verified core of a guided installer for a hotel task-management
//! application: the wizard state machine, the frontend configuration
//! document and its JSON grammar, and the pure decision logic behind
//! each provisioning step.

pub mod config;
pub mod db;
pub mod health;
pub mod java;
pub mod json;
pub mod text;
pub mod wizard;
