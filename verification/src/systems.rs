//! System-side helpers: a small builder that composes a system's
//! required mask from the component types it needs, and the marker types
//! of the two stock systems.

use vstd::prelude::*;

use crate::ecs_errors::EcsErrors;
use crate::masks::slot_mask;
use crate::registry::Registry;

verus! {

/// Composes a system's required mask at setup time: starts at zero and
/// ors in one registered component type's bit per `with` call.
pub struct SystemMaskBuilder<'a, C> {
    pub mask: u32,
    pub registry: &'a Registry<C>,
}

impl<'a, C> SystemMaskBuilder<'a, C> {
    pub fn new(registry: &'a Registry<C>) -> (r: Self)
        ensures
            r.mask == 0,
            r.registry == registry,
    {
        Self { mask: 0, registry }
    }

    /// Or in the bit of the registered component type `key`; fails with
    /// `ComponentDoesNotExist` when `key` was never registered.
    pub fn with(self, key: u64) -> (r: Result<Self, EcsErrors>)
        requires
            self.registry.wf(),
        ensures
            match r {
                Ok(b) => {
                    &&& self.registry.component_registered(key)
                    &&& b.mask == self.mask | self.registry.spec_component_mask(key)
                    &&& b.registry == self.registry
                },
                Err(EcsErrors::ComponentDoesNotExist) => !self.registry.component_registered(key),
                _ => false,
            },
    {
        let component_mask = match self.registry.get_component_mask(key) {
            Some(m) => m,
            None => {
                return Err(EcsErrors::ComponentDoesNotExist);
            },
        };
        Ok(Self { mask: self.mask | component_mask, registry: self.registry })
    }

    /// The accumulated required mask.
    pub fn build(&self) -> (m: u32)
        ensures
            m == self.mask,
    {
        self.mask
    }
}

/// Marker type of the movement system; its per-frame work lives with the
/// frame driver.
pub struct MovementSystem;

impl MovementSystem {
    pub fn get_system_mask() -> (m: u32)
        ensures
            m == 0,
    {
        0
    }
}

/// Marker type of the render system; its per-frame work lives with the
/// frame driver.
pub struct RenderSystem;

impl RenderSystem {
    pub fn get_system_mask() -> (m: u32)
        ensures
            m == 0,
    {
        0
    }
}

} // verus!
