//! An entity-component-system (ECS) registry.
//!
//! The registry associates typed data ("components") with integer handles
//! ("entities") and lets processing units ("systems") query the set of
//! entities owning a required combination of component types.  Component
//! types and system types are identified by caller-chosen stable `u64` keys;
//! each registered component type owns one bit of a 32-bit signature mask.

pub mod ecs_errors;
pub mod entity;
pub mod logger;
pub mod masks;
pub mod registry;
pub mod systems;
