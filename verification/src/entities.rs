//! Households, policies and the simulation session.

pub mod menage;
pub mod menage_input;
pub mod policy;
pub mod policy_input;
pub mod simulator;
