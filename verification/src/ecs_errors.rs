//! The typed failures the registry can return.  All are recoverable and
//! surfaced to the caller; none aborts the process.

use vstd::prelude::*;

verus! {

/// Every way an ECS operation can fail.
#[derive(Debug, Clone, Copy, PartialEq, Eq, Structural)]
pub enum EcsErrors {
    /// The 32-component-type ceiling is already reached.
    MaxComponentReached,
    /// A component type that was never registered was referenced, or the
    /// entity lacks the component on a get.
    ComponentDoesNotExist,
    /// No mask is registered for the referenced component type.
    ComponentMaskDoesNotExist,
    /// The entity's signature row is missing (stale or never-created handle).
    EntityComponentMaskDoesNotExist,
    /// A system type that was never registered was referenced.
    SystemDoesNotExist,
    /// A component type was registered after entities had already been
    /// created; component registration must come first.
    EntitiesAlreadyCreated,
    /// The component type is already registered and keeps its original bit.
    ComponentAlreadyRegistered,
}

impl EcsErrors {
    /// A human-readable description of the failure.
    pub fn message(&self) -> (r: &'static str)
        ensures
            r@.len() > 0,
    {
        let s = match self {
            EcsErrors::MaxComponentReached => "Max component count has been reached. Try removing a component or increase MAXCOMPONENTS",
            EcsErrors::ComponentDoesNotExist => "Component is not registered",
            EcsErrors::ComponentMaskDoesNotExist => "Component mask does not exist",
            EcsErrors::EntityComponentMaskDoesNotExist => "Entity component mask does not exist",
            EcsErrors::SystemDoesNotExist => "System is not registered",
            EcsErrors::EntitiesAlreadyCreated => "Components must be registered before any entity is created",
            EcsErrors::ComponentAlreadyRegistered => "Component is already registered",
        };
        proof {
            reveal_strlit("Max component count has been reached. Try removing a component or increase MAXCOMPONENTS");
            reveal_strlit("Component is not registered");
            reveal_strlit("Component mask does not exist");
            reveal_strlit("Entity component mask does not exist");
            reveal_strlit("System is not registered");
            reveal_strlit("Components must be registered before any entity is created");
            reveal_strlit("Component is already registered");
        }
        s
    }
}

} // verus!
