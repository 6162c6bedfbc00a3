//! The registry: entity lifecycle, component storage and signatures,
//! system registration, and the per-frame reconciliation that keeps each
//! system's interest set in step with entity signatures.
//!
//! Component types and system types are identified by caller-chosen
//! stable `u64` keys.  Each registered component type owns one bit of a
//! 32-bit signature mask, assigned in registration order starting at bit
//! 0.  Component values are stored in dense per-type rows, one optional
//! slot per entity, indexed by entity id.

use vstd::prelude::*;

use crate::ecs_errors::EcsErrors;
use crate::entity::{
    distinct_entities, entities_below, entity_set_insert, entity_set_remove, lemma_subrange_extend,
    lemma_subrange_full, Entity,
};
use crate::logger::{logged_at, LogLevel, Logger};
use crate::masks::{
    bit_set, distinct_keys, lemma_or_bit, lemma_single_bit_test, lemma_slot_of,
    lemma_slot_of_push, lemma_xor_bit, lemma_zero_mask, mask_in_range, mask_matches, slot_mask,
    slot_of, MAX_COMPONENTS,
};

verus! {

/// The registry, generic over the component value type `C` (typically an
/// application-defined enum with one variant per component type).
pub struct Registry<C> {
    /// Best-effort sink for lifecycle messages.
    pub logger: Logger,
    /// How many entities were ever created; entity ids are `0..num_entities`.
    pub num_entities: usize,
    /// The registered component type keys; the key at index `b` owns bit `b`.
    pub component_keys: Vec<u64>,
    /// One dense row per registered component type, parallel to
    /// `component_keys`: one optional slot per entity, indexed by entity id.
    pub component_stores: Vec<Vec<Option<C>>>,
    /// Per-entity signature masks, indexed by entity id.
    pub entity_masks: Vec<u32>,
    /// Entities created or re-signatured since the last reconciliation.
    pub entities_to_be_added: Vec<Entity>,
    /// Entities marked for destruction since the last reconciliation.
    pub entities_to_be_killed: Vec<Entity>,
    /// The registered system type keys.
    pub system_keys: Vec<u64>,
    /// Each system's required mask, parallel to `system_keys`.
    pub system_masks: Vec<u32>,
    /// Each system's interest set, parallel to `system_keys`.
    pub system_entities: Vec<Vec<Entity>>,
}

impl<C> Registry<C> {
    /// The registry's internal invariant: rows are aligned with the entity
    /// count, signatures agree bit-for-bit with row occupancy, keys are
    /// distinct, and the parallel system tables line up.
    pub open spec fn wf(self) -> bool {
        &&& self.component_stores@.len() == self.component_keys@.len()
        &&& self.component_keys@.len() <= MAX_COMPONENTS
        &&& distinct_keys(self.component_keys@)
        &&& self.entity_masks@.len() == self.num_entities
        &&& forall|b: int|
            0 <= b < self.component_stores@.len() ==> (
            #[trigger] self.component_stores@[b])@.len() == self.num_entities
        &&& forall|b: int, e: int|
            0 <= b < self.component_stores@.len() && 0 <= e < self.num_entities ==> (bit_set(
                self.entity_masks@[e],
                b as u32,
            ) <==> (#[trigger] self.component_stores@[b]@[e]) is Some)
        &&& forall|e: int|
            0 <= e < self.num_entities ==> mask_in_range(
                #[trigger] self.entity_masks@[e],
                self.component_keys@.len() as int,
            )
        &&& self.system_masks@.len() == self.system_keys@.len()
        &&& self.system_entities@.len() == self.system_keys@.len()
        &&& distinct_keys(self.system_keys@)
        &&& forall|s: int|
            0 <= s < self.system_entities@.len() ==> distinct_entities(
                (#[trigger] self.system_entities@[s])@,
            )
        &&& distinct_entities(self.entities_to_be_added@)
        &&& entities_below(self.entities_to_be_added@, self.num_entities as int)
        &&& distinct_entities(self.entities_to_be_killed@)
        &&& entities_below(self.entities_to_be_killed@, self.num_entities as int)
    }

    /// `key` is a registered component type.
    pub open spec fn component_registered(self, key: u64) -> bool {
        self.component_keys@.contains(key)
    }

    /// The bit owned by the registered component type `key`.
    pub open spec fn spec_component_slot(self, key: u64) -> int {
        slot_of(self.component_keys@, key)
    }

    /// The single-bit mask owned by the registered component type `key`.
    pub open spec fn spec_component_mask(self, key: u64) -> u32 {
        slot_mask(self.spec_component_slot(key) as u32)
    }

    /// `key` is a registered system type.
    pub open spec fn system_registered(self, key: u64) -> bool {
        self.system_keys@.contains(key)
    }

    /// The index of the registered system type `key` in the system tables.
    pub open spec fn spec_system_slot(self, key: u64) -> int {
        slot_of(self.system_keys@, key)
    }

    /// The component tables of `pre` and `post` agree.
    pub open spec fn same_components(pre: Self, post: Self) -> bool {
        &&& post.component_keys@ == pre.component_keys@
        &&& post.component_stores@ == pre.component_stores@
    }

    /// The system tables of `pre` and `post` agree.
    pub open spec fn same_systems(pre: Self, post: Self) -> bool {
        &&& post.system_keys@ == pre.system_keys@
        &&& post.system_masks@ == pre.system_masks@
        &&& post.system_entities@ == pre.system_entities@
    }

    /// The pending queues of `pre` and `post` agree.
    pub open spec fn same_pending(pre: Self, post: Self) -> bool {
        &&& post.entities_to_be_added@ == pre.entities_to_be_added@
        &&& post.entities_to_be_killed@ == pre.entities_to_be_killed@
    }

    /// A fresh registry around `logger`: no component types, no entities,
    /// no systems, nothing pending.
    pub fn new(logger: Logger) -> (r: Self)
        ensures
            r.wf(),
            r.logger == logger,
            r.num_entities == 0,
            r.component_keys@.len() == 0,
            r.component_stores@.len() == 0,
            r.entity_masks@.len() == 0,
            r.entities_to_be_added@.len() == 0,
            r.entities_to_be_killed@.len() == 0,
            r.system_keys@.len() == 0,
            r.system_masks@.len() == 0,
            r.system_entities@.len() == 0,
    {
        Registry {
            logger,
            num_entities: 0,
            component_keys: Vec::new(),
            component_stores: Vec::new(),
            entity_masks: Vec::new(),
            entities_to_be_added: Vec::new(),
            entities_to_be_killed: Vec::new(),
            system_keys: Vec::new(),
            system_masks: Vec::new(),
            system_entities: Vec::new(),
        }
    }

    pub fn get_num_entities(&self) -> (r: usize)
        ensures
            r == self.num_entities,
    {
        self.num_entities
    }

    pub fn get_num_systems(&self) -> (r: usize)
        ensures
            r == self.system_keys@.len(),
    {
        self.system_keys.len()
    }

    /// The signature of `entity`, or `None` for a handle that was never
    /// created.
    pub fn get_entity_mask(&self, entity: Entity) -> (r: Option<u32>)
        ensures
            r == if entity.0 < self.entity_masks@.len() {
                Some(self.entity_masks@[entity.0 as int])
            } else {
                None::<u32>
            },
    {
        if entity.0 < self.entity_masks.len() {
            Some(self.entity_masks[entity.0])
        } else {
            None
        }
    }

    /// `get_entity_mask` under its other historical name.
    pub fn get_entity_component_signature(&self, entity: Entity) -> (r: Option<u32>)
        ensures
            r == if entity.0 < self.entity_masks@.len() {
                Some(self.entity_masks@[entity.0 as int])
            } else {
                None::<u32>
            },
    {
        self.get_entity_mask(entity)
    }

    /// The single-bit mask owned by component type `key`, or `None` if the
    /// type was never registered.
    pub fn get_component_mask(&self, key: u64) -> (r: Option<u32>)
        requires
            self.wf(),
        ensures
            r == if self.component_registered(key) {
                Some(self.spec_component_mask(key))
            } else {
                None::<u32>
            },
    {
        match find_key(&self.component_keys, key) {
            Some(i) => {
                proof {
                    lemma_slot_of(self.component_keys@, key);
                }
                Some(1u32 << (i as u32))
            },
            None => None,
        }
    }

    /// `get_component_mask` under its other historical name.
    pub fn get_component_mask_with_id(&self, key: u64) -> (r: Option<u32>)
        requires
            self.wf(),
        ensures
            r == if self.component_registered(key) {
                Some(self.spec_component_mask(key))
            } else {
                None::<u32>
            },
    {
        self.get_component_mask(key)
    }

    /// `get_component_mask` under its other historical name.
    pub fn get_component_signature_by_type(&self, key: u64) -> (r: Option<u32>)
        requires
            self.wf(),
        ensures
            r == if self.component_registered(key) {
                Some(self.spec_component_mask(key))
            } else {
                None::<u32>
            },
    {
        self.get_component_mask(key)
    }

    /// `get_component_mask` under its other historical name.
    pub fn get_component_signature_by_id(&self, key: u64) -> (r: Option<u32>)
        requires
            self.wf(),
        ensures
            r == if self.component_registered(key) {
                Some(self.spec_component_mask(key))
            } else {
                None::<u32>
            },
    {
        self.get_component_mask(key)
    }
}

impl<C> Default for Registry<C> {
    /// A fresh registry around a default logger.
    fn default() -> (r: Self)
        ensures
            r.wf(),
            r.num_entities == 0,
            r.component_keys@.len() == 0,
            r.component_stores@.len() == 0,
            r.entity_masks@.len() == 0,
            r.entities_to_be_added@.len() == 0,
            r.entities_to_be_killed@.len() == 0,
            r.system_keys@.len() == 0,
            r.system_masks@.len() == 0,
            r.system_entities@.len() == 0,
            r.logger.level == LogLevel::Debug,
            r.logger.log_entries@.len() == 0,
    {
        Registry::new(Logger::default())
    }
}

impl<C> Registry<C> {
    /// What one `register_component` call does: under the 32-type ceiling,
    /// before any entity exists, a new key is given the next free bit and
    /// an empty row; otherwise the registry is left untouched and the
    /// matching error is returned.
    pub open spec fn register_component_spec(
        pre: Self,
        post: Self,
        key: u64,
        r: Result<(), EcsErrors>,
    ) -> bool {
        match r {
            Ok(()) => {
                &&& pre.component_keys@.len() < MAX_COMPONENTS
                &&& pre.num_entities == 0
                &&& !pre.component_registered(key)
                &&& post.component_keys@ == pre.component_keys@.push(key)
                &&& post.component_stores@.len() == pre.component_stores@.len() + 1
                &&& forall|b: int|
                    0 <= b < pre.component_stores@.len() ==> post.component_stores@[b]
                        == pre.component_stores@[b]
                &&& post.component_stores@.last()@.len() == 0
                &&& post.num_entities == pre.num_entities
                &&& post.entity_masks@ == pre.entity_masks@
                &&& Self::same_pending(pre, post)
                &&& Self::same_systems(pre, post)
                &&& post.logger == pre.logger
            },
            Err(EcsErrors::MaxComponentReached) => {
                &&& pre.component_keys@.len() >= MAX_COMPONENTS
                &&& post == pre
            },
            Err(EcsErrors::EntitiesAlreadyCreated) => {
                &&& pre.component_keys@.len() < MAX_COMPONENTS
                &&& pre.num_entities > 0
                &&& post == pre
            },
            Err(EcsErrors::ComponentAlreadyRegistered) => {
                &&& pre.component_keys@.len() < MAX_COMPONENTS
                &&& pre.num_entities == 0
                &&& pre.component_registered(key)
                &&& post == pre
            },
            _ => false,
        }
    }

    /// Register the component type `key`, giving it the next free bit.
    /// Fails once 32 types are registered, once any entity exists, or when
    /// `key` is already registered (a registered type keeps its bit for the
    /// registry's lifetime).
    pub fn register_component(&mut self, key: u64) -> (r: Result<(), EcsErrors>)
        requires
            old(self).wf(),
        ensures
            final(self).wf(),
            Self::register_component_spec(*old(self), *final(self), key, r),
    {
        if self.component_keys.len() >= MAX_COMPONENTS {
            return Err(EcsErrors::MaxComponentReached);
        }
        if self.num_entities > 0 {
            return Err(EcsErrors::EntitiesAlreadyCreated);
        }
        if find_key(&self.component_keys, key).is_some() {
            return Err(EcsErrors::ComponentAlreadyRegistered);
        }
        proof {
            lemma_slot_of_push(self.component_keys@, key, key);
        }
        self.component_keys.push(key);
        self.component_stores.push(Vec::new());
        Ok(())
    }

    /// What one `create_entity` call does: the next id is handed out, one
    /// empty slot is appended to every row, a zero signature is appended,
    /// and the new entity is queued for reconciliation.
    pub open spec fn create_entity_spec(pre: Self, post: Self, e: Entity) -> bool {
        &&& e.0 == pre.num_entities
        &&& post.num_entities == pre.num_entities + 1
        &&& post.component_keys@ == pre.component_keys@
        &&& post.component_stores@.len() == pre.component_stores@.len()
        &&& forall|b: int|
            0 <= b < pre.component_stores@.len() ==> (#[trigger] post.component_stores@[b])@
                == pre.component_stores@[b]@.push(None::<C>)
        &&& post.entity_masks@ == pre.entity_masks@.push(0u32)
        &&& post.entities_to_be_added@ == pre.entities_to_be_added@.push(e)
        &&& post.entities_to_be_killed@ == pre.entities_to_be_killed@
        &&& Self::same_systems(pre, post)
        &&& logged_at(pre.logger, post.logger, LogLevel::Info)
    }

    /// Create a new entity: allocate the next id, keep every component row
    /// aligned by appending an empty slot to it, give the entity a zero
    /// signature, and queue it for the next reconciliation.
    #[verifier::loop_isolation(false)]
    pub fn create_entity(&mut self) -> (e: Entity)
        requires
            old(self).wf(),
            old(self).num_entities < usize::MAX,
        ensures
            final(self).wf(),
            Self::create_entity_spec(*old(self), *final(self), e),
    {
        let entity = Entity::new(self.num_entities);

        // Keep every row aligned: one fresh empty slot per row.
        let mut b: usize = 0;
        while b < self.component_stores.len()
            invariant
                old(self).wf(),
                b <= self.component_stores@.len(),
                self.component_stores@.len() == old(self).component_stores@.len(),
                forall|j: int|
                    0 <= j < b ==> (#[trigger] self.component_stores@[j])@
                        == old(self).component_stores@[j]@.push(None::<C>),
                forall|j: int|
                    b <= j < self.component_stores@.len() ==> self.component_stores@[j] == old(
                        self,
                    ).component_stores@[j],
                self.num_entities == old(self).num_entities,
                self.component_keys@ == old(self).component_keys@,
                self.entity_masks@ == old(self).entity_masks@,
                self.entities_to_be_added@ == old(self).entities_to_be_added@,
                self.entities_to_be_killed@ == old(self).entities_to_be_killed@,
                self.system_keys@ == old(self).system_keys@,
                self.system_masks@ == old(self).system_masks@,
                self.system_entities@ == old(self).system_entities@,
                self.logger == old(self).logger,
            decreases self.component_stores@.len() - b,
        {
            self.component_stores[b].push(None);
            b += 1;
        }

        self.num_entities = self.num_entities + 1;

        proof {
            assert(!old(self).entities_to_be_added@.contains(entity)) by {
                if old(self).entities_to_be_added@.contains(entity) {
                    let j = choose|j: int|
                        0 <= j < old(self).entities_to_be_added@.len() && old(
                            self,
                        ).entities_to_be_added@[j] == entity;
                    assert(old(self).entities_to_be_added@[j].0 < old(self).num_entities);
                }
            }
        }
        entity_set_insert(&mut self.entities_to_be_added, entity);
        self.entity_masks.push(0);

        let mut msg = String::from_str("Entity created with id = ");
        msg.append(entity.0.to_string().as_str());
        self.logger.log(msg.as_str());

        proof {
            let pre = *old(self);
            let post = *self;
            assert forall|x: int| 0 <= x < post.num_entities implies mask_in_range(
                #[trigger] post.entity_masks@[x],
                post.component_keys@.len() as int,
            ) by {
                if x < pre.num_entities {
                    assert(post.entity_masks@[x] == pre.entity_masks@[x]);
                } else {
                    assert(post.entity_masks@[x] == 0u32);
                    assert forall|c: u32| post.component_keys@.len() <= c < 32 implies !bit_set(
                        0u32,
                        c,
                    ) by {
                        lemma_zero_mask(c);
                    }
                }
            }
            assert forall|b2: int, e2: int|
                0 <= b2 < post.component_stores@.len() && 0 <= e2 < post.num_entities implies (
            bit_set(post.entity_masks@[e2], b2 as u32) <==> (
            #[trigger] post.component_stores@[b2]@[e2]) is Some) by {
                if e2 < pre.num_entities {
                    assert(post.component_stores@[b2]@[e2] == pre.component_stores@[b2]@[e2]);
                    assert(post.entity_masks@[e2] == pre.entity_masks@[e2]);
                } else {
                    assert(post.component_stores@[b2]@[e2] is None);
                    assert(post.entity_masks@[e2] == 0u32);
                    lemma_zero_mask(b2 as u32);
                }
            }
            assert(entities_below(post.entities_to_be_added@, post.num_entities as int)) by {
                assert forall|i: int|
                    0 <= i < post.entities_to_be_added@.len() implies (
                #[trigger] post.entities_to_be_added@[i]).0 < post.num_entities by {
                    if i < pre.entities_to_be_added@.len() {
                        assert(post.entities_to_be_added@[i] == pre.entities_to_be_added@[i]);
                    } else {
                        assert(post.entities_to_be_added@[i] == entity);
                    }
                }
            }
            assert(entities_below(post.entities_to_be_killed@, post.num_entities as int)) by {
                assert forall|i: int|
                    0 <= i < post.entities_to_be_killed@.len() implies (
                #[trigger] post.entities_to_be_killed@[i]).0 < post.num_entities by {
                    assert(pre.entities_to_be_killed@[i].0 < pre.num_entities);
                }
            }
        }
        entity
    }
}

impl<C> Registry<C> {
    /// What one `add_component` call does: the value lands in the slot
    /// `(key, entity)` (overwriting any previous value), the matching
    /// signature bit is set, and the entity is queued for reconciliation;
    /// an unregistered key or an unknown entity leaves the registry
    /// untouched and returns the matching error.
    pub open spec fn add_component_spec(
        pre: Self,
        post: Self,
        entity: Entity,
        key: u64,
        data: C,
        r: Result<(), EcsErrors>,
    ) -> bool {
        match r {
            Ok(()) => {
                let b = pre.spec_component_slot(key);
                &&& pre.component_registered(key)
                &&& entity.0 < pre.num_entities
                &&& post.component_keys@ == pre.component_keys@
                &&& post.component_stores@.len() == pre.component_stores@.len()
                &&& post.component_stores@[b]@ == pre.component_stores@[b]@.update(
                    entity.0 as int,
                    Some(data),
                )
                &&& forall|j: int|
                    0 <= j < pre.component_stores@.len() && j != b ==> post.component_stores@[j]
                        == pre.component_stores@[j]
                &&& post.entity_masks@ == pre.entity_masks@.update(
                    entity.0 as int,
                    pre.entity_masks@[entity.0 as int] | pre.spec_component_mask(key),
                )
                &&& post.num_entities == pre.num_entities
                &&& post.entities_to_be_added@ == if pre.entities_to_be_added@.contains(entity) {
                    pre.entities_to_be_added@
                } else {
                    pre.entities_to_be_added@.push(entity)
                }
                &&& post.entities_to_be_killed@ == pre.entities_to_be_killed@
                &&& Self::same_systems(pre, post)
                &&& post.logger == pre.logger
            },
            Err(EcsErrors::ComponentDoesNotExist) => {
                &&& !pre.component_registered(key)
                &&& post == pre
            },
            Err(EcsErrors::EntityComponentMaskDoesNotExist) => {
                &&& pre.component_registered(key)
                &&& entity.0 >= pre.num_entities
                &&& post == pre
            },
            _ => false,
        }
    }

    /// Attach `data` as the `key` component of `entity`.  Adding the same
    /// component type again overwrites the previous value.
    pub fn add_component(&mut self, entity: Entity, key: u64, data: C) -> (r: Result<
        (),
        EcsErrors,
    >)
        requires
            old(self).wf(),
        ensures
            final(self).wf(),
            Self::add_component_spec(*old(self), *final(self), entity, key, data, r),
    {
        let slot = match find_key(&self.component_keys, key) {
            Some(i) => i,
            None => {
                return Err(EcsErrors::ComponentDoesNotExist);
            },
        };
        if entity.0 >= self.entity_masks.len() {
            return Err(EcsErrors::EntityComponentMaskDoesNotExist);
        }
        let store = &mut self.component_stores[slot];
        store[entity.0] = Some(data);
        let mask: u32 = 1u32 << (slot as u32);
        let em = self.entity_masks[entity.0];
        self.entity_masks[entity.0] = em | mask;
        entity_set_insert(&mut self.entities_to_be_added, entity);
        proof {
            let pre = *old(self);
            let post = *self;
            let b = slot as int;
            let e = entity.0 as int;
            assert forall|b2: int, e2: int|
                0 <= b2 < post.component_stores@.len() && 0 <= e2 < post.num_entities implies (
            bit_set(post.entity_masks@[e2], b2 as u32) <==> (
            #[trigger] post.component_stores@[b2]@[e2]) is Some) by {
                lemma_or_bit(pre.entity_masks@[e], slot as u32, b2 as u32);
                if e2 != e {
                    assert(post.component_stores@[b2]@[e2] == pre.component_stores@[b2]@[e2]);
                    assert(post.entity_masks@[e2] == pre.entity_masks@[e2]);
                } else if b2 == b {
                    assert(post.component_stores@[b2]@[e2] is Some);
                } else {
                    assert(post.component_stores@[b2] == pre.component_stores@[b2]);
                    assert(post.component_stores@[b2]@[e2] == pre.component_stores@[b2]@[e2]);
                }
            }
            assert forall|e2: int| 0 <= e2 < post.num_entities implies mask_in_range(
                #[trigger] post.entity_masks@[e2],
                post.component_keys@.len() as int,
            ) by {
                if e2 == e {
                    assert forall|c: u32|
                        post.component_keys@.len() <= c < 32 implies !bit_set(
                        post.entity_masks@[e2],
                        c,
                    ) by {
                        lemma_or_bit(pre.entity_masks@[e], slot as u32, c);
                    }
                } else {
                    assert(post.entity_masks@[e2] == pre.entity_masks@[e2]);
                }
            }
            assert(entities_below(post.entities_to_be_added@, post.num_entities as int)) by {
                assert forall|i: int|
                    0 <= i < post.entities_to_be_added@.len() implies (
                #[trigger] post.entities_to_be_added@[i]).0 < post.num_entities by {
                    if i < pre.entities_to_be_added@.len() {
                        assert(post.entities_to_be_added@[i] == pre.entities_to_be_added@[i]);
                    } else {
                        assert(post.entities_to_be_added@[i] == entity);
                    }
                }
            }
        }
        Ok(())
    }

    /// What one `remove_component` call does: when the entity owns the
    /// component, the slot is emptied, the signature bit is cleared, the
    /// entity is queued for reconciliation and `true` comes back; when it
    /// does not, nothing changes and `false` comes back; an unregistered
    /// key or an unknown entity returns the matching error.
    pub open spec fn remove_component_spec(
        pre: Self,
        post: Self,
        entity: Entity,
        key: u64,
        r: Result<bool, EcsErrors>,
    ) -> bool {
        match r {
            Ok(true) => {
                let b = pre.spec_component_slot(key);
                &&& pre.component_registered(key)
                &&& entity.0 < pre.num_entities
                &&& bit_set(pre.entity_masks@[entity.0 as int], b as u32)
                &&& post.component_keys@ == pre.component_keys@
                &&& post.component_stores@.len() == pre.component_stores@.len()
                &&& post.component_stores@[b]@ == pre.component_stores@[b]@.update(
                    entity.0 as int,
                    None::<C>,
                )
                &&& forall|j: int|
                    0 <= j < pre.component_stores@.len() && j != b ==> post.component_stores@[j]
                        == pre.component_stores@[j]
                &&& post.entity_masks@ == pre.entity_masks@.update(
                    entity.0 as int,
                    pre.entity_masks@[entity.0 as int] ^ pre.spec_component_mask(key),
                )
                &&& !bit_set(post.entity_masks@[entity.0 as int], b as u32)
                &&& post.num_entities == pre.num_entities
                &&& post.entities_to_be_added@ == if pre.entities_to_be_added@.contains(entity) {
                    pre.entities_to_be_added@
                } else {
                    pre.entities_to_be_added@.push(entity)
                }
                &&& post.entities_to_be_killed@ == pre.entities_to_be_killed@
                &&& Self::same_systems(pre, post)
                &&& logged_at(pre.logger, post.logger, LogLevel::Info)
            },
            Ok(false) => {
                &&& pre.component_registered(key)
                &&& entity.0 < pre.num_entities
                &&& !bit_set(
                    pre.entity_masks@[entity.0 as int],
                    pre.spec_component_slot(key) as u32,
                )
                &&& post == pre
            },
            Err(EcsErrors::ComponentMaskDoesNotExist) => {
                &&& !pre.component_registered(key)
                &&& post == pre
            },
            Err(EcsErrors::EntityComponentMaskDoesNotExist) => {
                &&& pre.component_registered(key)
                &&& entity.0 >= pre.num_entities
                &&& post == pre
            },
            _ => false,
        }
    }

    /// Detach the `key` component from `entity`.  Idempotent: removing a
    /// component the entity does not own is a no-op that returns `false`.
    pub fn remove_component(&mut self, entity: Entity, key: u64) -> (r: Result<bool, EcsErrors>)
        requires
            old(self).wf(),
        ensures
            final(self).wf(),
            Self::remove_component_spec(*old(self), *final(self), entity, key, r),
    {
        let slot = match find_key(&self.component_keys, key) {
            Some(i) => i,
            None => {
                return Err(EcsErrors::ComponentMaskDoesNotExist);
            },
        };
        if entity.0 >= self.entity_masks.len() {
            return Err(EcsErrors::EntityComponentMaskDoesNotExist);
        }
        let mask: u32 = 1u32 << (slot as u32);
        let em = self.entity_masks[entity.0];
        proof {
            lemma_single_bit_test(em, slot as u32);
        }
        if em & mask != mask {
            return Ok(false);
        }
        let store = &mut self.component_stores[slot];
        store[entity.0] = None;
        self.entity_masks[entity.0] = em ^ mask;
        entity_set_insert(&mut self.entities_to_be_added, entity);

        let mut msg = String::from_str("Component key = ");
        msg.append(key.to_string().as_str());
        msg.append(" was removed from entity id ");
        msg.append(entity.0.to_string().as_str());
        self.logger.log(msg.as_str());

        proof {
            let pre = *old(self);
            let post = *self;
            let b = slot as int;
            let e = entity.0 as int;
            lemma_xor_bit(pre.entity_masks@[e], slot as u32, slot as u32);
            assert forall|b2: int, e2: int|
                0 <= b2 < post.component_stores@.len() && 0 <= e2 < post.num_entities implies (
            bit_set(post.entity_masks@[e2], b2 as u32) <==> (
            #[trigger] post.component_stores@[b2]@[e2]) is Some) by {
                lemma_xor_bit(pre.entity_masks@[e], slot as u32, b2 as u32);
                if e2 != e {
                    assert(post.component_stores@[b2]@[e2] == pre.component_stores@[b2]@[e2]);
                    assert(post.entity_masks@[e2] == pre.entity_masks@[e2]);
                } else if b2 == b {
                    assert(post.component_stores@[b2]@[e2] is None);
                } else {
                    assert(post.component_stores@[b2] == pre.component_stores@[b2]);
                    assert(post.component_stores@[b2]@[e2] == pre.component_stores@[b2]@[e2]);
                }
            }
            assert forall|e2: int| 0 <= e2 < post.num_entities implies mask_in_range(
                #[trigger] post.entity_masks@[e2],
                post.component_keys@.len() as int,
            ) by {
                if e2 == e {
                    assert forall|c: u32|
                        post.component_keys@.len() <= c < 32 implies !bit_set(
                        post.entity_masks@[e2],
                        c,
                    ) by {
                        lemma_xor_bit(pre.entity_masks@[e], slot as u32, c);
                    }
                } else {
                    assert(post.entity_masks@[e2] == pre.entity_masks@[e2]);
                }
            }
            assert(entities_below(post.entities_to_be_added@, post.num_entities as int)) by {
                assert forall|i: int|
                    0 <= i < post.entities_to_be_added@.len() implies (
                #[trigger] post.entities_to_be_added@[i]).0 < post.num_entities by {
                    if i < pre.entities_to_be_added@.len() {
                        assert(post.entities_to_be_added@[i] == pre.entities_to_be_added@[i]);
                    } else {
                        assert(post.entities_to_be_added@[i] == entity);
                    }
                }
            }
        }
        Ok(true)
    }

    /// Whether `entity` currently owns the `key` component.  By the
    /// registry's invariant this is equivalent to the storage slot
    /// `(key, entity)` being occupied, and both facts are stated.
    pub fn has_component(&self, entity: Entity, key: u64) -> (r: Result<bool, EcsErrors>)
        requires
            self.wf(),
        ensures
            match r {
                Ok(b) => {
                    &&& self.component_registered(key)
                    &&& entity.0 < self.num_entities
                    &&& b == bit_set(
                        self.entity_masks@[entity.0 as int],
                        self.spec_component_slot(key) as u32,
                    )
                    &&& b == (self.component_stores@[self.spec_component_slot(key)]@[entity.0 as int]
                        is Some)
                },
                Err(EcsErrors::ComponentMaskDoesNotExist) => !self.component_registered(key),
                Err(EcsErrors::EntityComponentMaskDoesNotExist) => {
                    &&& self.component_registered(key)
                    &&& entity.0 >= self.num_entities
                },
                _ => false,
            },
    {
        let slot = match find_key(&self.component_keys, key) {
            Some(i) => i,
            None => {
                return Err(EcsErrors::ComponentMaskDoesNotExist);
            },
        };
        if entity.0 >= self.entity_masks.len() {
            return Err(EcsErrors::EntityComponentMaskDoesNotExist);
        }
        let mask: u32 = 1u32 << (slot as u32);
        let em = self.entity_masks[entity.0];
        proof {
            lemma_single_bit_test(em, slot as u32);
        }
        Ok(em & mask == mask)
    }

    /// Whether the signature of `entity` covers every bit of
    /// `component_mask`.
    pub fn has_component_with_mask(&self, entity: Entity, component_mask: u32) -> (r: Result<
        bool,
        EcsErrors,
    >)
        ensures
            match r {
                Ok(b) => {
                    &&& entity.0 < self.entity_masks@.len()
                    &&& b == mask_matches(self.entity_masks@[entity.0 as int], component_mask)
                },
                Err(EcsErrors::EntityComponentMaskDoesNotExist) => entity.0
                    >= self.entity_masks@.len(),
                _ => false,
            },
    {
        if entity.0 >= self.entity_masks.len() {
            return Err(EcsErrors::EntityComponentMaskDoesNotExist);
        }
        let em = self.entity_masks[entity.0];
        Ok(em & component_mask == component_mask)
    }

    /// The dense row of the registered component type `key`.
    fn extract_components(&self, key: u64) -> (r: Result<&Vec<Option<C>>, EcsErrors>)
        requires
            self.wf(),
        ensures
            match r {
                Ok(v) => {
                    &&& self.component_registered(key)
                    &&& v@ == self.component_stores@[self.spec_component_slot(key)]@
                },
                Err(EcsErrors::ComponentDoesNotExist) => !self.component_registered(key),
                _ => false,
            },
    {
        let slot = match find_key(&self.component_keys, key) {
            Some(i) => i,
            None => {
                return Err(EcsErrors::ComponentDoesNotExist);
            },
        };
        Ok(&self.component_stores[slot])
    }

    /// Borrow the `key` component of `entity`.
    pub fn get_component(&self, entity: Entity, key: u64) -> (r: Result<&C, EcsErrors>)
        requires
            self.wf(),
        ensures
            match r {
                Ok(c) => {
                    &&& self.component_registered(key)
                    &&& entity.0 < self.num_entities
                    &&& self.component_stores@[self.spec_component_slot(key)]@[entity.0 as int]
                        == Some(*c)
                },
                Err(EcsErrors::ComponentMaskDoesNotExist) => !self.component_registered(key),
                Err(EcsErrors::EntityComponentMaskDoesNotExist) => {
                    &&& self.component_registered(key)
                    &&& entity.0 >= self.num_entities
                },
                Err(EcsErrors::ComponentDoesNotExist) => {
                    &&& self.component_registered(key)
                    &&& entity.0 < self.num_entities
                    &&& self.component_stores@[self.spec_component_slot(key)]@[entity.0 as int]
                        is None
                },
                _ => false,
            },
    {
        let owns = self.has_component(entity, key)?;
        if !owns {
            return Err(EcsErrors::ComponentDoesNotExist);
        }
        let components = match self.extract_components(key) {
            Ok(v) => v,
            Err(_) => {
                return Err(EcsErrors::ComponentDoesNotExist);
            },
        };
        match &components[entity.0] {
            Some(c) => Ok(c),
            None => Err(EcsErrors::ComponentDoesNotExist),
        }
    }

    /// `get_component` under its other historical name.
    pub fn get_component_ref(&self, entity: Entity, key: u64) -> (r: Result<&C, EcsErrors>)
        requires
            self.wf(),
        ensures
            match r {
                Ok(c) => {
                    &&& self.component_registered(key)
                    &&& entity.0 < self.num_entities
                    &&& self.component_stores@[self.spec_component_slot(key)]@[entity.0 as int]
                        == Some(*c)
                },
                Err(EcsErrors::ComponentMaskDoesNotExist) => !self.component_registered(key),
                Err(EcsErrors::EntityComponentMaskDoesNotExist) => {
                    &&& self.component_registered(key)
                    &&& entity.0 >= self.num_entities
                },
                Err(EcsErrors::ComponentDoesNotExist) => {
                    &&& self.component_registered(key)
                    &&& entity.0 < self.num_entities
                    &&& self.component_stores@[self.spec_component_slot(key)]@[entity.0 as int]
                        is None
                },
                _ => false,
            },
    {
        self.get_component(entity, key)
    }
}

impl<C> Registry<C> {
    /// Borrow the `key` component of `entity` for writing.  The borrow
    /// starts at the stored value; whatever the caller leaves behind ends
    /// up in the slot, which stays occupied, so the signature is unharmed.
    pub fn get_component_mut(&mut self, entity: Entity, key: u64) -> (r: Result<&mut C, EcsErrors>)
        requires
            old(self).wf(),
        ensures
            final(self).wf(),
            match r {
                Ok(c) => {
                    let b = old(self).spec_component_slot(key);
                    &&& old(self).component_registered(key)
                    &&& entity.0 < old(self).num_entities
                    &&& old(self).component_stores@[b]@[entity.0 as int] == Some(*c)
                    &&& final(self).component_stores@.len() == old(self).component_stores@.len()
                    &&& final(self).component_stores@[b]@ == old(self).component_stores@[b]@.update(
                        entity.0 as int,
                        Some(*final(c)),
                    )
                    &&& forall|j: int|
                        0 <= j < old(self).component_stores@.len() && j != b
                            ==> final(self).component_stores@[j] == old(self).component_stores@[j]
                    &&& final(self).component_keys@ == old(self).component_keys@
                    &&& final(self).entity_masks@ == old(self).entity_masks@
                    &&& final(self).num_entities == old(self).num_entities
                    &&& Self::same_pending(*old(self), *final(self))
                    &&& Self::same_systems(*old(self), *final(self))
                    &&& final(self).logger == old(self).logger
                },
                Err(EcsErrors::ComponentMaskDoesNotExist) => {
                    &&& !old(self).component_registered(key)
                    &&& *final(self) == *old(self)
                },
                Err(EcsErrors::EntityComponentMaskDoesNotExist) => {
                    &&& old(self).component_registered(key)
                    &&& entity.0 >= old(self).num_entities
                    &&& *final(self) == *old(self)
                },
                Err(EcsErrors::ComponentDoesNotExist) => {
                    &&& old(self).component_registered(key)
                    &&& entity.0 < old(self).num_entities
                    &&& !bit_set(
                        old(self).entity_masks@[entity.0 as int],
                        old(self).spec_component_slot(key) as u32,
                    )
                    &&& *final(self) == *old(self)
                },
                _ => false,
            },
    {
        let slot = match find_key(&self.component_keys, key) {
            Some(i) => i,
            None => {
                return Err(EcsErrors::ComponentMaskDoesNotExist);
            },
        };
        if entity.0 >= self.entity_masks.len() {
            return Err(EcsErrors::EntityComponentMaskDoesNotExist);
        }
        let mask: u32 = 1u32 << (slot as u32);
        let em = self.entity_masks[entity.0];
        proof {
            lemma_single_bit_test(em, slot as u32);
        }
        if em & mask != mask {
            return Err(EcsErrors::ComponentDoesNotExist);
        }
        let store = &mut self.component_stores[slot];
        match &mut store[entity.0] {
            Some(c) => Ok(c),
            None => Err(EcsErrors::ComponentDoesNotExist),
        }
    }

    /// What one `register_system` call does: a new system key is given its
    /// required mask and an empty interest set and `true` comes back; a
    /// key already registered is left exactly as it was and `false` comes
    /// back.
    pub open spec fn register_system_spec(
        pre: Self,
        post: Self,
        key: u64,
        system_mask: u32,
        r: Result<bool, EcsErrors>,
    ) -> bool {
        match r {
            Ok(true) => {
                &&& !pre.system_registered(key)
                &&& post.system_keys@ == pre.system_keys@.push(key)
                &&& post.system_masks@ == pre.system_masks@.push(system_mask)
                &&& post.system_entities@.len() == pre.system_entities@.len() + 1
                &&& forall|s: int|
                    0 <= s < pre.system_entities@.len() ==> post.system_entities@[s]
                        == pre.system_entities@[s]
                &&& post.system_entities@.last()@.len() == 0
                &&& Self::same_components(pre, post)
                &&& post.entity_masks@ == pre.entity_masks@
                &&& post.num_entities == pre.num_entities
                &&& Self::same_pending(pre, post)
                &&& post.logger == pre.logger
            },
            Ok(false) => {
                &&& pre.system_registered(key)
                &&& post == pre
            },
            _ => false,
        }
    }

    /// Register the system type `key` with its required mask.  Idempotent
    /// at the call site: an already-registered system returns `false`, not
    /// an error, and keeps its original mask and interest set.
    pub fn register_system(&mut self, key: u64, system_mask: u32) -> (r: Result<bool, EcsErrors>)
        requires
            old(self).wf(),
        ensures
            final(self).wf(),
            Self::register_system_spec(*old(self), *final(self), key, system_mask, r),
    {
        if find_key(&self.system_keys, key).is_some() {
            return Ok(false);
        }
        proof {
            lemma_slot_of_push(self.system_keys@, key, key);
        }
        self.system_keys.push(key);
        self.system_masks.push(system_mask);
        self.system_entities.push(Vec::new());
        Ok(true)
    }

    /// A copy of the interest set of system `key`: the entities matching
    /// its required mask as of the last reconciliation.  Systems never see
    /// a live alias into registry-owned state.
    pub fn get_system_entities(&self, key: u64) -> (r: Result<Vec<Entity>, EcsErrors>)
        requires
            self.wf(),
        ensures
            match r {
                Ok(v) => {
                    &&& self.system_registered(key)
                    &&& v@ == self.system_entities@[self.spec_system_slot(key)]@
                },
                Err(EcsErrors::SystemDoesNotExist) => !self.system_registered(key),
                _ => false,
            },
    {
        let slot = match find_key(&self.system_keys, key) {
            Some(i) => i,
            None => {
                return Err(EcsErrors::SystemDoesNotExist);
            },
        };
        let src = &self.system_entities[slot];
        let mut out: Vec<Entity> = Vec::new();
        let mut i: usize = 0;
        while i < src.len()
            invariant
                i <= src@.len(),
                out@.len() == i,
                forall|j: int| 0 <= j < i ==> out@[j] == src@[j],
            decreases src@.len() - i,
        {
            out.push(src[i]);
            i += 1;
        }
        proof {
            assert(out@ =~= src@);
        }
        Ok(out)
    }

    /// What inserting `entity` into the interest set of system `key` does:
    /// membership grows by exactly that entity; an unregistered key leaves
    /// the registry untouched.
    pub open spec fn add_entity_to_system_spec(
        pre: Self,
        post: Self,
        key: u64,
        entity: Entity,
        r: Result<(), EcsErrors>,
    ) -> bool {
        match r {
            Ok(()) => {
                let s = pre.spec_system_slot(key);
                &&& pre.system_registered(key)
                &&& post.system_keys@ == pre.system_keys@
                &&& post.system_masks@ == pre.system_masks@
                &&& post.system_entities@.len() == pre.system_entities@.len()
                &&& forall|t: int|
                    0 <= t < pre.system_entities@.len() && t != s ==> post.system_entities@[t]
                        == pre.system_entities@[t]
                &&& forall|x: Entity|
                    post.system_entities@[s]@.contains(x) == (pre.system_entities@[s]@.contains(x)
                        || x == entity)
                &&& Self::same_components(pre, post)
                &&& post.entity_masks@ == pre.entity_masks@
                &&& post.num_entities == pre.num_entities
                &&& Self::same_pending(pre, post)
                &&& post.logger == pre.logger
            },
            Err(EcsErrors::SystemDoesNotExist) => {
                &&& !pre.system_registered(key)
                &&& post == pre
            },
            _ => false,
        }
    }

    /// Insert `entity` into the interest set of system `key`.
    pub fn add_entity_to_system(&mut self, key: u64, entity: Entity) -> (r: Result<(), EcsErrors>)
        requires
            old(self).wf(),
        ensures
            final(self).wf(),
            Self::add_entity_to_system_spec(*old(self), *final(self), key, entity, r),
    {
        let slot = match find_key(&self.system_keys, key) {
            Some(i) => i,
            None => {
                return Err(EcsErrors::SystemDoesNotExist);
            },
        };
        entity_set_insert(&mut self.system_entities[slot], entity);
        Ok(())
    }

    /// `add_entity_to_system` under its other historical name.
    pub fn add_entity_to_system_with_id(&mut self, key: u64, entity: Entity) -> (r: Result<
        (),
        EcsErrors,
    >)
        requires
            old(self).wf(),
        ensures
            final(self).wf(),
            Self::add_entity_to_system_spec(*old(self), *final(self), key, entity, r),
    {
        self.add_entity_to_system(key, entity)
    }

    /// What removing `entity` from the interest set of system `key` does:
    /// membership shrinks by exactly that entity; an unregistered key
    /// leaves the registry untouched.
    pub open spec fn remove_entity_from_system_spec(
        pre: Self,
        post: Self,
        key: u64,
        entity: Entity,
        r: Result<(), EcsErrors>,
    ) -> bool {
        match r {
            Ok(()) => {
                let s = pre.spec_system_slot(key);
                &&& pre.system_registered(key)
                &&& post.system_keys@ == pre.system_keys@
                &&& post.system_masks@ == pre.system_masks@
                &&& post.system_entities@.len() == pre.system_entities@.len()
                &&& forall|t: int|
                    0 <= t < pre.system_entities@.len() && t != s ==> post.system_entities@[t]
                        == pre.system_entities@[t]
                &&& forall|x: Entity|
                    post.system_entities@[s]@.contains(x) == (pre.system_entities@[s]@.contains(x)
                        && x != entity)
                &&& Self::same_components(pre, post)
                &&& post.entity_masks@ == pre.entity_masks@
                &&& post.num_entities == pre.num_entities
                &&& Self::same_pending(pre, post)
                &&& post.logger == pre.logger
            },
            Err(EcsErrors::SystemDoesNotExist) => {
                &&& !pre.system_registered(key)
                &&& post == pre
            },
            _ => false,
        }
    }

    /// Remove `entity` from the interest set of system `key`.
    pub fn remove_entity_from_system(&mut self, key: u64, entity: Entity) -> (r: Result<
        (),
        EcsErrors,
    >)
        requires
            old(self).wf(),
        ensures
            final(self).wf(),
            Self::remove_entity_from_system_spec(*old(self), *final(self), key, entity, r),
    {
        let slot = match find_key(&self.system_keys, key) {
            Some(i) => i,
            None => {
                return Err(EcsErrors::SystemDoesNotExist);
            },
        };
        entity_set_remove(&mut self.system_entities[slot], entity);
        Ok(())
    }

    /// `remove_entity_from_system` under its other historical name.
    pub fn remove_entity_from_system_with_id(&mut self, key: u64, entity: Entity) -> (r: Result<
        (),
        EcsErrors,
    >)
        requires
            old(self).wf(),
        ensures
            final(self).wf(),
            Self::remove_entity_from_system_spec(*old(self), *final(self), key, entity, r),
    {
        self.remove_entity_from_system(key, entity)
    }

    /// The required mask of system `key`.
    pub fn get_system_mask(&self, key: u64) -> (r: Result<u32, EcsErrors>)
        requires
            self.wf(),
        ensures
            match r {
                Ok(m) => {
                    &&& self.system_registered(key)
                    &&& m == self.system_masks@[self.spec_system_slot(key)]
                },
                Err(EcsErrors::SystemDoesNotExist) => !self.system_registered(key),
                _ => false,
            },
    {
        let slot = match find_key(&self.system_keys, key) {
            Some(i) => i,
            None => {
                return Err(EcsErrors::SystemDoesNotExist);
            },
        };
        Ok(self.system_masks[slot])
    }

    /// What one `kill_entity` call does: a known entity is queued for
    /// destruction at the next reconciliation — nothing is purged yet; a
    /// stale handle leaves the registry untouched and returns the matching
    /// error.
    pub open spec fn kill_entity_spec(
        pre: Self,
        post: Self,
        entity: Entity,
        r: Result<(), EcsErrors>,
    ) -> bool {
        match r {
            Ok(()) => {
                &&& entity.0 < pre.num_entities
                &&& post.entities_to_be_killed@ == if pre.entities_to_be_killed@.contains(entity) {
                    pre.entities_to_be_killed@
                } else {
                    pre.entities_to_be_killed@.push(entity)
                }
                &&& post.entities_to_be_added@ == pre.entities_to_be_added@
                &&& Self::same_components(pre, post)
                &&& Self::same_systems(pre, post)
                &&& post.entity_masks@ == pre.entity_masks@
                &&& post.num_entities == pre.num_entities
                &&& logged_at(pre.logger, post.logger, LogLevel::Info)
            },
            Err(EcsErrors::EntityComponentMaskDoesNotExist) => {
                &&& entity.0 >= pre.num_entities
                &&& post == pre
            },
            _ => false,
        }
    }

    /// Mark `entity` for destruction.  The purge — clearing its signature
    /// and component slots and leaving every interest set — happens during
    /// the next `update`, never synchronously, so systems keep a stable
    /// view for the rest of the frame.
    pub fn kill_entity(&mut self, entity: Entity) -> (r: Result<(), EcsErrors>)
        requires
            old(self).wf(),
        ensures
            final(self).wf(),
            Self::kill_entity_spec(*old(self), *final(self), entity, r),
    {
        if entity.0 >= self.entity_masks.len() {
            return Err(EcsErrors::EntityComponentMaskDoesNotExist);
        }
        entity_set_insert(&mut self.entities_to_be_killed, entity);

        let mut msg = String::from_str("Entity with id = ");
        msg.append(entity.0.to_string().as_str());
        msg.append(" was marked for removal");
        self.logger.log(msg.as_str());

        proof {
            let pre = *old(self);
            let post = *self;
            assert(entities_below(post.entities_to_be_killed@, post.num_entities as int)) by {
                assert forall|i: int|
                    0 <= i < post.entities_to_be_killed@.len() implies (
                #[trigger] post.entities_to_be_killed@[i]).0 < post.num_entities by {
                    if i < pre.entities_to_be_killed@.len() {
                        assert(post.entities_to_be_killed@[i] == pre.entities_to_be_killed@[i]);
                    } else {
                        assert(post.entities_to_be_killed@[i] == entity);
                    }
                }
            }
        }
        Ok(())
    }
}

impl<C> Registry<C> {
    /// Phase one of reconciliation: hold every queued (created or
    /// re-signatured) entity against every system's required mask, moving
    /// it into or out of each interest set accordingly.  Entities not
    /// queued keep their membership — interest sets reflect signatures
    /// only as of reconciliation, never instantaneously.
    #[verifier::loop_isolation(false)]
    fn reconcile_changed(&mut self)
        requires
            old(self).wf(),
        ensures
            final(self).wf(),
            final(self).num_entities == old(self).num_entities,
            final(self).component_keys@ == old(self).component_keys@,
            final(self).component_stores@ == old(self).component_stores@,
            final(self).entity_masks@ == old(self).entity_masks@,
            Self::same_pending(*old(self), *final(self)),
            final(self).system_keys@ == old(self).system_keys@,
            final(self).system_masks@ == old(self).system_masks@,
            final(self).system_entities@.len() == old(self).system_entities@.len(),
            final(self).logger == old(self).logger,
            forall|t: int, x: Entity|
                0 <= t < old(self).system_entities@.len()
                    ==> ((#[trigger] final(self).system_entities@[t]@.contains(x))
                    <==> (if old(self).entities_to_be_added@.contains(x) {
                    mask_matches(
                        old(self).entity_masks@[x.0 as int],
                        old(self).system_masks@[t],
                    )
                } else {
                    old(self).system_entities@[t]@.contains(x)
                })),
    {
        let ghost pre = *old(self);
        let mut s: usize = 0;
        while s < self.system_keys.len()
            invariant
                self.num_entities == pre.num_entities,
                self.component_keys@ == pre.component_keys@,
                self.component_stores@ == pre.component_stores@,
                self.entity_masks@ == pre.entity_masks@,
                self.entities_to_be_added@ == pre.entities_to_be_added@,
                self.entities_to_be_killed@ == pre.entities_to_be_killed@,
                self.system_keys@ == pre.system_keys@,
                self.system_masks@ == pre.system_masks@,
                self.system_entities@.len() == pre.system_entities@.len(),
                self.logger == pre.logger,
                s <= pre.system_entities@.len(),
                forall|t: int|
                    s <= t < pre.system_entities@.len() ==> #[trigger] self.system_entities@[t]
                        == pre.system_entities@[t],
                forall|t: int|
                    0 <= t < pre.system_entities@.len() ==> distinct_entities(
                        (#[trigger] self.system_entities@[t])@,
                    ),
                forall|t: int, x: Entity|
                    0 <= t < s ==> ((#[trigger] self.system_entities@[t]@.contains(x)) <==> (
                    if pre.entities_to_be_added@.contains(x) {
                        mask_matches(pre.entity_masks@[x.0 as int], pre.system_masks@[t])
                    } else {
                        pre.system_entities@[t]@.contains(x)
                    })),
            decreases pre.system_entities@.len() - s,
        {
            let smask = self.system_masks[s];
            let mut i: usize = 0;
            while i < self.entities_to_be_added.len()
                invariant
                    self.num_entities == pre.num_entities,
                    self.component_keys@ == pre.component_keys@,
                    self.component_stores@ == pre.component_stores@,
                    self.entity_masks@ == pre.entity_masks@,
                    self.entities_to_be_added@ == pre.entities_to_be_added@,
                    self.entities_to_be_killed@ == pre.entities_to_be_killed@,
                    self.system_keys@ == pre.system_keys@,
                    self.system_masks@ == pre.system_masks@,
                    self.system_entities@.len() == pre.system_entities@.len(),
                    self.logger == pre.logger,
                    s < pre.system_entities@.len(),
                    smask == pre.system_masks@[s as int],
                    i <= pre.entities_to_be_added@.len(),
                    forall|t: int|
                        s < t < pre.system_entities@.len() ==> #[trigger] self.system_entities@[t]
                            == pre.system_entities@[t],
                    forall|t: int|
                        0 <= t < pre.system_entities@.len() ==> distinct_entities(
                            (#[trigger] self.system_entities@[t])@,
                        ),
                    forall|t: int, x: Entity|
                        0 <= t < s ==> ((#[trigger] self.system_entities@[t]@.contains(x)) <==> (
                        if pre.entities_to_be_added@.contains(x) {
                            mask_matches(pre.entity_masks@[x.0 as int], pre.system_masks@[t])
                        } else {
                            pre.system_entities@[t]@.contains(x)
                        })),
                    forall|x: Entity|
                        (#[trigger] self.system_entities@[s as int]@.contains(x)) <==> (
                        if pre.entities_to_be_added@.subrange(0, i as int).contains(x) {
                            mask_matches(pre.entity_masks@[x.0 as int], smask)
                        } else {
                            pre.system_entities@[s as int]@.contains(x)
                        }),
                decreases pre.entities_to_be_added@.len() - i,
            {
                let e = self.entities_to_be_added[i];
                proof {
                    assert(pre.entities_to_be_added@[i as int].0 < pre.num_entities);
                }
                let emask = self.entity_masks[e.0];
                if emask & smask == smask {
                    entity_set_insert(&mut self.system_entities[s], e);
                } else {
                    entity_set_remove(&mut self.system_entities[s], e);
                }
                proof {
                    lemma_subrange_extend(pre.entities_to_be_added@, i as int);
                }
                i += 1;
            }
            proof {
                lemma_subrange_full(pre.entities_to_be_added@);
            }
            s += 1;
        }
    }

    /// Phase two of reconciliation: destruction wins.  Every entity marked
    /// for destruction leaves every interest set; its signature is zeroed
    /// and each of its component slots is emptied.  Rows keep their length
    /// — ids are never reused and index alignment is preserved.
    #[verifier::loop_isolation(false)]
    fn purge_killed(&mut self)
        requires
            old(self).wf(),
        ensures
            final(self).wf(),
            final(self).num_entities == old(self).num_entities,
            final(self).component_keys@ == old(self).component_keys@,
            Self::same_pending(*old(self), *final(self)),
            final(self).system_keys@ == old(self).system_keys@,
            final(self).system_masks@ == old(self).system_masks@,
            final(self).system_entities@.len() == old(self).system_entities@.len(),
            final(self).logger == old(self).logger,
            final(self).entity_masks@.len() == old(self).entity_masks@.len(),
            forall|e: int|
                0 <= e < old(self).num_entities ==> (#[trigger] final(self).entity_masks@[e]) == (
                if old(self).entities_to_be_killed@.contains(Entity(e as usize)) {
                    0u32
                } else {
                    old(self).entity_masks@[e]
                }),
            final(self).component_stores@.len() == old(self).component_stores@.len(),
            forall|b: int, e: int|
                0 <= b < old(self).component_stores@.len() && 0 <= e < old(self).num_entities
                    ==> (#[trigger] final(self).component_stores@[b]@[e]) == (
                if old(self).entities_to_be_killed@.contains(Entity(e as usize)) {
                    None::<C>
                } else {
                    old(self).component_stores@[b]@[e]
                }),
            forall|t: int, x: Entity|
                0 <= t < old(self).system_entities@.len()
                    ==> ((#[trigger] final(self).system_entities@[t]@.contains(x))
                    <==> (old(self).system_entities@[t]@.contains(x)
                    && !old(self).entities_to_be_killed@.contains(x))),
    {
        let ghost pre = *old(self);
        let mut k: usize = 0;
        while k < self.entities_to_be_killed.len()
            invariant
                self.num_entities == pre.num_entities,
                self.component_keys@ == pre.component_keys@,
                self.entities_to_be_added@ == pre.entities_to_be_added@,
                self.entities_to_be_killed@ == pre.entities_to_be_killed@,
                self.system_keys@ == pre.system_keys@,
                self.system_masks@ == pre.system_masks@,
                self.system_entities@.len() == pre.system_entities@.len(),
                self.logger == pre.logger,
                k <= pre.entities_to_be_killed@.len(),
                self.entity_masks@.len() == pre.entity_masks@.len(),
                forall|e: int|
                    0 <= e < pre.num_entities ==> (#[trigger] self.entity_masks@[e]) == (
                    if pre.entities_to_be_killed@.subrange(0, k as int).contains(
                        Entity(e as usize),
                    ) {
                        0u32
                    } else {
                        pre.entity_masks@[e]
                    }),
                self.component_stores@.len() == pre.component_stores@.len(),
                forall|b: int|
                    0 <= b < pre.component_stores@.len() ==> (
                    #[trigger] self.component_stores@[b])@.len() == pre.num_entities,
                forall|b: int, e: int|
                    0 <= b < pre.component_stores@.len() && 0 <= e < pre.num_entities ==> (
                    #[trigger] self.component_stores@[b]@[e]) == (
                    if pre.entities_to_be_killed@.subrange(0, k as int).contains(
                        Entity(e as usize),
                    ) {
                        None::<C>
                    } else {
                        pre.component_stores@[b]@[e]
                    }),
                forall|t: int|
                    0 <= t < pre.system_entities@.len() ==> distinct_entities(
                        (#[trigger] self.system_entities@[t])@,
                    ),
                forall|t: int, x: Entity|
                    0 <= t < pre.system_entities@.len() ==> ((
                    #[trigger] self.system_entities@[t]@.contains(x)) <==> (
                    pre.system_entities@[t]@.contains(x)
                        && !pre.entities_to_be_killed@.subrange(0, k as int).contains(x))),
            decreases pre.entities_to_be_killed@.len() - k,
        {
            let e = self.entities_to_be_killed[k];
            proof {
                assert(pre.entities_to_be_killed@[k as int].0 < pre.num_entities);
            }

            // Remove the entity from every interest set.
            let ghost masks_snap = self.entity_masks@;
            let ghost stores_before = self.component_stores@;
            let ghost sets_snap = self.system_entities@;
            let mut t: usize = 0;
            while t < self.system_entities.len()
                invariant
                    self.system_entities@.len() == sets_snap.len(),
                    t <= sets_snap.len(),
                    self.num_entities == pre.num_entities,
                    self.component_keys@ == pre.component_keys@,
                    self.component_stores@ == stores_before,
                    self.entity_masks@ == masks_snap,
                    self.entities_to_be_added@ == pre.entities_to_be_added@,
                    self.entities_to_be_killed@ == pre.entities_to_be_killed@,
                    self.system_keys@ == pre.system_keys@,
                    self.system_masks@ == pre.system_masks@,
                    self.logger == pre.logger,
                    forall|u: int|
                        t <= u < sets_snap.len() ==> #[trigger] self.system_entities@[u]
                            == sets_snap[u],
                    forall|u: int|
                        0 <= u < sets_snap.len() ==> distinct_entities(
                            (#[trigger] self.system_entities@[u])@,
                        ),
                    forall|u: int, x: Entity|
                        0 <= u < t ==> ((#[trigger] self.system_entities@[u]@.contains(x)) <==> (
                        sets_snap[u]@.contains(x) && x != e)),
                decreases sets_snap.len() - t,
            {
                entity_set_remove(&mut self.system_entities[t], e);
                t += 1;
            }

            // Empty the entity's slot in every component row.
            let ghost sets_after = self.system_entities@;
            let ghost stores_snap = self.component_stores@;
            let mut b: usize = 0;
            while b < self.component_stores.len()
                invariant
                    self.component_stores@.len() == stores_snap.len(),
                    b <= stores_snap.len(),
                    e.0 < pre.num_entities,
                    forall|j: int|
                        0 <= j < stores_snap.len() ==> (#[trigger] stores_snap[j])@.len()
                            == pre.num_entities,
                    forall|j: int|
                        b <= j < stores_snap.len() ==> #[trigger] self.component_stores@[j]
                            == stores_snap[j],
                    forall|j: int|
                        0 <= j < b ==> (#[trigger] self.component_stores@[j])@ == stores_snap[j]@.update(
                            e.0 as int,
                            None::<C>,
                        ),
                    self.num_entities == pre.num_entities,
                    self.component_keys@ == pre.component_keys@,
                    self.entity_masks@ == masks_snap,
                    self.entities_to_be_added@ == pre.entities_to_be_added@,
                    self.entities_to_be_killed@ == pre.entities_to_be_killed@,
                    self.system_keys@ == pre.system_keys@,
                    self.system_masks@ == pre.system_masks@,
                    self.system_entities@.len() == pre.system_entities@.len(),
                    self.logger == pre.logger,
                    self.system_entities@ == sets_after,
                decreases stores_snap.len() - b,
            {
                let store = &mut self.component_stores[b];
                store[e.0] = None;
                b += 1;
            }

            self.entity_masks[e.0] = 0;

            proof {
                lemma_subrange_extend(pre.entities_to_be_killed@, k as int);
                let kills = pre.entities_to_be_killed@;
                assert forall|e2: int| 0 <= e2 < pre.num_entities implies (
                #[trigger] self.entity_masks@[e2]) == (
                if kills.subrange(0, k + 1).contains(Entity(e2 as usize)) {
                    0u32
                } else {
                    pre.entity_masks@[e2]
                }) by {
                    if e2 == e.0 {
                        assert(kills[k as int] == Entity(e2 as usize));
                        assert(kills.subrange(0, k + 1).contains(Entity(e2 as usize)));
                    } else {
                        assert(self.entity_masks@[e2] == masks_snap[e2]);
                        assert(kills.subrange(0, k + 1).contains(Entity(e2 as usize))
                            == kills.subrange(0, k as int).contains(Entity(e2 as usize)));
                    }
                }
                assert forall|b2: int, e2: int|
                    0 <= b2 < pre.component_stores@.len() && 0 <= e2 < pre.num_entities implies (
                #[trigger] self.component_stores@[b2]@[e2]) == (
                if kills.subrange(0, k + 1).contains(Entity(e2 as usize)) {
                    None::<C>
                } else {
                    pre.component_stores@[b2]@[e2]
                }) by {
                    assert(self.component_stores@[b2]@ == stores_snap[b2]@.update(
                        e.0 as int,
                        None::<C>,
                    ));
                    if e2 == e.0 {
                        assert(kills[k as int] == Entity(e2 as usize));
                        assert(kills.subrange(0, k + 1).contains(Entity(e2 as usize)));
                        assert(self.component_stores@[b2]@[e2] is None);
                    } else {
                        assert(self.component_stores@[b2]@[e2] == stores_snap[b2]@[e2]);
                        assert(stores_snap[b2]@[e2] == stores_before[b2]@[e2]);
                        assert(kills.subrange(0, k + 1).contains(Entity(e2 as usize))
                            == kills.subrange(0, k as int).contains(Entity(e2 as usize)));
                    }
                }
                assert forall|t2: int, x: Entity|
                    0 <= t2 < pre.system_entities@.len() implies ((
                #[trigger] self.system_entities@[t2]@.contains(x)) <==> (
                pre.system_entities@[t2]@.contains(x) && !kills.subrange(0, k + 1).contains(
                    x,
                ))) by {
                    assert(self.system_entities@[t2] == sets_after[t2]);
                    assert(sets_after[t2]@.contains(x) == (sets_snap[t2]@.contains(x) && x != e));
                    assert(kills.subrange(0, k + 1).contains(x) == (kills.subrange(
                        0,
                        k as int,
                    ).contains(x) || x == e));
                }
            }
            k += 1;
        }
        proof {
            lemma_subrange_full(pre.entities_to_be_killed@);
            let post = *self;
            assert forall|b2: int, e2: int|
                0 <= b2 < post.component_stores@.len() && 0 <= e2 < post.num_entities implies (
            bit_set(post.entity_masks@[e2], b2 as u32) <==> (
            #[trigger] post.component_stores@[b2]@[e2]) is Some) by {
                if pre.entities_to_be_killed@.contains(Entity(e2 as usize)) {
                    assert(post.entity_masks@[e2] == 0u32);
                    assert(post.component_stores@[b2]@[e2] is None);
                    lemma_zero_mask(b2 as u32);
                } else {
                    assert(post.entity_masks@[e2] == pre.entity_masks@[e2]);
                    assert(post.component_stores@[b2]@[e2] == pre.component_stores@[b2]@[e2]);
                }
            }
            assert forall|e2: int| 0 <= e2 < post.num_entities implies mask_in_range(
                #[trigger] post.entity_masks@[e2],
                post.component_keys@.len() as int,
            ) by {
                if pre.entities_to_be_killed@.contains(Entity(e2 as usize)) {
                    assert(post.entity_masks@[e2] == 0u32);
                    assert forall|c: u32|
                        post.component_keys@.len() <= c < 32 implies !bit_set(0u32, c) by {
                        lemma_zero_mask(c);
                    }
                } else {
                    assert(post.entity_masks@[e2] == pre.entity_masks@[e2]);
                }
            }
        }
    }

    /// What one reconciliation pass does.  For every system: a queued
    /// entity's membership becomes exactly whether its pre-pass signature
    /// covers the system's mask; an unqueued entity keeps its membership;
    /// an entity marked for destruction is in no interest set afterwards,
    /// whatever else happened this frame — destruction wins.  Destroyed
    /// entities end with a zero signature and all slots empty, rows keep
    /// their length, and both pending queues come out empty.
    pub open spec fn update_spec(pre: Self, post: Self, r: Result<(), EcsErrors>) -> bool {
        &&& r is Ok
        &&& post.num_entities == pre.num_entities
        &&& post.component_keys@ == pre.component_keys@
        &&& post.system_keys@ == pre.system_keys@
        &&& post.system_masks@ == pre.system_masks@
        &&& post.system_entities@.len() == pre.system_entities@.len()
        &&& post.entities_to_be_added@.len() == 0
        &&& post.entities_to_be_killed@.len() == 0
        &&& post.logger == pre.logger
        &&& post.entity_masks@.len() == pre.entity_masks@.len()
        &&& forall|e: int|
            0 <= e < pre.num_entities ==> (#[trigger] post.entity_masks@[e]) == (
            if pre.entities_to_be_killed@.contains(Entity(e as usize)) {
                0u32
            } else {
                pre.entity_masks@[e]
            })
        &&& post.component_stores@.len() == pre.component_stores@.len()
        &&& forall|b: int, e: int|
            0 <= b < pre.component_stores@.len() && 0 <= e < pre.num_entities ==> (
            #[trigger] post.component_stores@[b]@[e]) == (
            if pre.entities_to_be_killed@.contains(Entity(e as usize)) {
                None::<C>
            } else {
                pre.component_stores@[b]@[e]
            })
        &&& forall|t: int, x: Entity|
            0 <= t < pre.system_entities@.len() ==> ((
            #[trigger] post.system_entities@[t]@.contains(x)) <==> ((
            if pre.entities_to_be_added@.contains(x) {
                mask_matches(pre.entity_masks@[x.0 as int], pre.system_masks@[t])
            } else {
                pre.system_entities@[t]@.contains(x)
            }) && !pre.entities_to_be_killed@.contains(x)))
    }

    /// The per-frame reconciliation pass: first every queued entity is
    /// held against every system's mask (phase one), then every entity
    /// marked for destruction is purged (phase two) — so destruction
    /// always wins for an entity both created and killed within one frame
    /// — and finally both pending queues are cleared.
    pub fn update(&mut self) -> (r: Result<(), EcsErrors>)
        requires
            old(self).wf(),
        ensures
            final(self).wf(),
            Self::update_spec(*old(self), *final(self), r),
    {
        self.reconcile_changed();
        self.purge_killed();
        self.entities_to_be_added.clear();
        self.entities_to_be_killed.clear();
        Ok(())
    }
}

/// Bit assignment: in a well-formed registry the component type that was
/// registered `i`-th owns exactly bit `i`, so registering N types assigns
/// bits 0..N-1 in registration order.  `register_component_spec` adds the
/// other half: a registration beyond 32 types fails with
/// `MaxComponentReached` and changes nothing.
pub proof fn lemma_bit_assignment<C>(r: Registry<C>, i: int)
    requires
        r.wf(),
        0 <= i < r.component_keys@.len(),
    ensures
        r.spec_component_slot(r.component_keys@[i]) == i,
        r.spec_component_mask(r.component_keys@[i]) == slot_mask(i as u32),
{
    assert(r.component_keys@.contains(r.component_keys@[i]));
    lemma_slot_of(r.component_keys@, r.component_keys@[i]);
}

/// Row alignment: in a well-formed registry every registered component
/// type has a row, and every row has exactly one slot per entity ever
/// created, whatever order registrations and creations came in.
pub proof fn lemma_row_alignment<C>(r: Registry<C>)
    requires
        r.wf(),
    ensures
        r.component_stores@.len() == r.component_keys@.len(),
        forall|b: int|
            0 <= b < r.component_stores@.len() ==> (#[trigger] r.component_stores@[b])@.len()
                == r.num_entities,
{
}

/// Signature-storage equivalence: for every entity and registered
/// component type, the entity's signature bit for that type is set
/// exactly when the type's storage slot for that entity is occupied.
/// `has_component` reports this very bit, so it answers `true` exactly
/// for occupied slots, after any sequence of adds and removes.
pub proof fn lemma_signature_storage_equivalence<C>(r: Registry<C>, entity: Entity, key: u64)
    requires
        r.wf(),
        r.component_registered(key),
        entity.0 < r.num_entities,
    ensures
        bit_set(r.entity_masks@[entity.0 as int], r.spec_component_slot(key) as u32)
            <==> r.component_stores@[r.spec_component_slot(key)]@[entity.0 as int] is Some,
{
    lemma_slot_of(r.component_keys@, key);
}

/// Remove idempotence: removing a component the entity owns succeeds with
/// `true` and clears exactly its bit; removing it again right away
/// returns `false` and leaves the signature — and everything else —
/// unchanged.
pub proof fn lemma_remove_twice<C>(
    pre: Registry<C>,
    mid: Registry<C>,
    post: Registry<C>,
    entity: Entity,
    key: u64,
    r1: Result<bool, EcsErrors>,
    r2: Result<bool, EcsErrors>,
)
    requires
        pre.wf(),
        mid.wf(),
        pre.component_registered(key),
        entity.0 < pre.num_entities,
        bit_set(pre.entity_masks@[entity.0 as int], pre.spec_component_slot(key) as u32),
        Registry::remove_component_spec(pre, mid, entity, key, r1),
        Registry::remove_component_spec(mid, post, entity, key, r2),
    ensures
        r1 == Ok::<bool, EcsErrors>(true),
        r2 == Ok::<bool, EcsErrors>(false),
        !bit_set(mid.entity_masks@[entity.0 as int], pre.spec_component_slot(key) as u32),
        post == mid,
{
    assert(r1 == Ok::<bool, EcsErrors>(true)) by {
        match r1 {
            Ok(true) => {},
            Ok(false) => {
                assert(false);
            },
            Err(_) => {
                assert(false);
            },
        }
    }
    assert(mid.component_keys@ == pre.component_keys@);
    assert(mid.component_registered(key));
    assert(mid.spec_component_slot(key) == pre.spec_component_slot(key));
    assert(r2 == Ok::<bool, EcsErrors>(false)) by {
        match r2 {
            Ok(true) => {
                assert(bit_set(
                    mid.entity_masks@[entity.0 as int],
                    mid.spec_component_slot(key) as u32,
                ));
                assert(false);
            },
            Ok(false) => {},
            Err(_) => {
                assert(false);
            },
        }
    }
}

/// Mask composition, carried through reconciliation: against a system
/// requiring bits 0 and 1 (mask `0b11`, as a builder over those two
/// component types produces), an entity owning bit 0 alone is not in the
/// system's interest set after `update`, however often it was queued.
pub proof fn lemma_mask_composition_update<C>(
    pre: Registry<C>,
    post: Registry<C>,
    x: Entity,
    t: int,
    r: Result<(), EcsErrors>,
)
    requires
        pre.wf(),
        Registry::update_spec(pre, post, r),
        0 <= t < pre.system_entities@.len(),
        x.0 < pre.num_entities,
        pre.system_masks@[t] == 0b11u32,
        bit_set(pre.entity_masks@[x.0 as int], 0),
        !bit_set(pre.entity_masks@[x.0 as int], 1),
        !pre.system_entities@[t]@.contains(x),
    ensures
        !post.system_entities@[t]@.contains(x),
{
    crate::masks::lemma_mask_composition(pre.entity_masks@[x.0 as int]);
}

/// Destruction precedence: an entity marked for destruction before a
/// reconciliation — even one created or re-signatured in the same frame —
/// is in no system's interest set afterwards, its signature is zero, and
/// every one of its component slots is empty.
pub proof fn lemma_destruction_precedence<C>(
    pre: Registry<C>,
    post: Registry<C>,
    x: Entity,
    r: Result<(), EcsErrors>,
)
    requires
        pre.wf(),
        Registry::update_spec(pre, post, r),
        pre.entities_to_be_killed@.contains(x),
    ensures
        forall|t: int|
            0 <= t < post.system_entities@.len() ==> !(
            #[trigger] post.system_entities@[t]@.contains(x)),
        post.entity_masks@[x.0 as int] == 0u32,
        forall|b: int|
            0 <= b < post.component_stores@.len() ==> (
            #[trigger] post.component_stores@[b]@[x.0 as int]) is None,
{
    assert(x.0 < pre.num_entities) by {
        let j = choose|j: int|
            0 <= j < pre.entities_to_be_killed@.len() && pre.entities_to_be_killed@[j] == x;
        assert(pre.entities_to_be_killed@[j].0 < pre.num_entities);
    }
    assert(Entity(x.0) == x);
    assert(post.entity_masks@[x.0 as int] == 0u32);
}

/// Find `key` in a distinct key table, returning its slot.
fn find_key(keys: &Vec<u64>, key: u64) -> (r: Option<usize>)
    requires
        distinct_keys(keys@),
    ensures
        match r {
            Some(i) => keys@.contains(key) && i as int == slot_of(keys@, key) && i
                < keys@.len() && keys@[i as int] == key,
            None => !keys@.contains(key),
        },
{
    let mut i: usize = 0;
    while i < keys.len()
        invariant
            i <= keys@.len(),
            forall|j: int| 0 <= j < i ==> keys@[j] != key,
            distinct_keys(keys@),
        decreases keys@.len() - i,
    {
        if keys[i] == key {
            proof {
                assert(keys@[i as int] == key);
                assert(keys@.contains(key));
                lemma_slot_of(keys@, key);
            }
            return Some(i);
        }
        i += 1;
    }
    proof {
        if keys@.contains(key) {
            let j = choose|j: int| 0 <= j < keys@.len() && keys@[j] == key;
            assert(keys@[j] != key);
        }
    }
    None
}

} // verus!
