use ecs_core::ecs_errors::EcsErrors;
use ecs_core::entity::Entity;
use ecs_core::registry::Registry;
use ecs_core::systems::{MovementSystem, RenderSystem, SystemMaskBuilder};

#[derive(Debug, Clone, Copy, PartialEq)]
enum GameComponent {
    Position(i32, i32),
    Velocity(i32, i32),
}

const POSITION: u64 = 100;
const VELOCITY: u64 = 101;
const MOVEMENT: u64 = 200;

#[test]
fn bits_are_assigned_in_registration_order() {
    let mut registry: Registry<u32> = Registry::default();
    for key in 0..32u64 {
        registry.register_component(1000 + key).unwrap();
        assert_eq!(
            registry.get_component_mask(1000 + key).unwrap(),
            1u32 << key
        );
    }
}

#[test]
fn rows_stay_aligned_with_entity_count() {
    let mut registry: Registry<u32> = Registry::default();
    registry.register_component(7).unwrap();
    registry.register_component(8).unwrap();
    for _ in 0..5 {
        registry.create_entity();
    }
    assert_eq!(registry.get_num_entities(), 5);
    for store in registry.component_stores.iter() {
        assert_eq!(store.len(), 5);
        assert!(store.iter().all(|slot| slot.is_none()));
    }
}

#[test]
fn signature_matches_storage_after_adds_and_removes() {
    let mut registry: Registry<GameComponent> = Registry::default();
    registry.register_component(POSITION).unwrap();
    registry.register_component(VELOCITY).unwrap();
    let e1 = registry.create_entity();
    let e2 = registry.create_entity();

    registry
        .add_component(e1, POSITION, GameComponent::Position(1, 2))
        .unwrap();
    registry
        .add_component(e2, VELOCITY, GameComponent::Velocity(3, 4))
        .unwrap();
    registry.remove_component(e2, VELOCITY).unwrap();
    registry
        .add_component(e2, POSITION, GameComponent::Position(5, 6))
        .unwrap();

    for &entity in &[e1, e2] {
        for &key in &[POSITION, VELOCITY] {
            let owns = registry.has_component(entity, key).unwrap();
            let stored = registry.get_component(entity, key).is_ok();
            assert_eq!(owns, stored);
        }
    }
    assert!(registry.has_component(e1, POSITION).unwrap());
    assert!(!registry.has_component(e1, VELOCITY).unwrap());
    assert!(registry.has_component(e2, POSITION).unwrap());
    assert!(!registry.has_component(e2, VELOCITY).unwrap());
}

#[test]
fn removing_twice_reports_once() {
    let mut registry: Registry<GameComponent> = Registry::default();
    registry.register_component(POSITION).unwrap();
    let e = registry.create_entity();
    registry
        .add_component(e, POSITION, GameComponent::Position(0, 0))
        .unwrap();

    let first = registry.remove_component(e, POSITION).unwrap();
    assert_eq!(first, true);
    let signature_after_first = registry.get_entity_mask(e).unwrap();
    assert_eq!(signature_after_first, 0);

    let second = registry.remove_component(e, POSITION).unwrap();
    assert_eq!(second, false);
    assert_eq!(registry.get_entity_mask(e).unwrap(), signature_after_first);
}

#[test]
fn mask_composition_and_membership() {
    let mut registry: Registry<GameComponent> = Registry::default();
    registry.register_component(POSITION).unwrap();
    registry.register_component(VELOCITY).unwrap();

    let required = SystemMaskBuilder::new(&registry)
        .with(POSITION)
        .unwrap()
        .with(VELOCITY)
        .unwrap()
        .build();
    assert_eq!(required, 0b11);

    assert!(registry.register_system(MOVEMENT, required).unwrap());

    let e = registry.create_entity();
    registry
        .add_component(e, POSITION, GameComponent::Position(0, 0))
        .unwrap();
    registry.update().unwrap();
    assert!(!registry.get_system_entities(MOVEMENT).unwrap().contains(&e));

    registry
        .add_component(e, VELOCITY, GameComponent::Velocity(1, 1))
        .unwrap();
    registry.update().unwrap();
    assert!(registry.get_system_entities(MOVEMENT).unwrap().contains(&e));
}

#[test]
fn destruction_wins_within_one_frame() {
    let mut registry: Registry<GameComponent> = Registry::default();
    registry.register_component(POSITION).unwrap();
    registry.register_system(MOVEMENT, 0b01).unwrap();

    let e = registry.create_entity();
    registry
        .add_component(e, POSITION, GameComponent::Position(9, 9))
        .unwrap();
    registry.kill_entity(e).unwrap();
    registry.update().unwrap();

    assert!(!registry.get_system_entities(MOVEMENT).unwrap().contains(&e));
    assert_eq!(registry.get_entity_mask(e).unwrap(), 0);
    assert!(registry.get_component(e, POSITION).is_err());
    assert!(registry.component_stores[0][e.0].is_none());
    assert!(registry.entities_to_be_added.is_empty());
    assert!(registry.entities_to_be_killed.is_empty());
}

#[test]
fn movement_scenario_with_stale_interest_window() {
    let mut registry: Registry<GameComponent> = Registry::default();
    registry.register_component(POSITION).unwrap();
    registry.register_component(VELOCITY).unwrap();
    let required = SystemMaskBuilder::new(&registry)
        .with(POSITION)
        .unwrap()
        .with(VELOCITY)
        .unwrap()
        .build();
    registry.register_system(MOVEMENT, required).unwrap();

    let e1 = registry.create_entity();
    registry
        .add_component(e1, POSITION, GameComponent::Position(0, 0))
        .unwrap();
    registry.update().unwrap();
    assert!(!registry.get_system_entities(MOVEMENT).unwrap().contains(&e1));

    registry
        .add_component(e1, VELOCITY, GameComponent::Velocity(2, 0))
        .unwrap();
    registry.update().unwrap();
    assert!(registry.get_system_entities(MOVEMENT).unwrap().contains(&e1));

    // The signature loses the bit at once, but membership reflects the
    // signature only as of the last reconciliation: the interest set is
    // stale until the next update.
    registry.remove_component(e1, VELOCITY).unwrap();
    let velocity_mask = registry.get_component_mask(VELOCITY).unwrap();
    assert_eq!(registry.get_entity_mask(e1).unwrap() & velocity_mask, 0);
    assert!(registry.get_system_entities(MOVEMENT).unwrap().contains(&e1));

    registry.update().unwrap();
    assert!(!registry.get_system_entities(MOVEMENT).unwrap().contains(&e1));
}

#[test]
fn error_variants_have_matching_inputs() {
    let mut registry: Registry<GameComponent> = Registry::default();
    registry.register_component(POSITION).unwrap();

    assert_eq!(
        registry.add_component(Entity::new(0), VELOCITY, GameComponent::Velocity(0, 0)),
        Err(EcsErrors::ComponentDoesNotExist)
    );
    assert_eq!(
        registry.has_component(Entity::new(0), VELOCITY),
        Err(EcsErrors::ComponentMaskDoesNotExist)
    );
    assert_eq!(
        registry.remove_component(Entity::new(0), VELOCITY),
        Err(EcsErrors::ComponentMaskDoesNotExist)
    );
    assert_eq!(
        registry.add_component(Entity::new(5), POSITION, GameComponent::Position(0, 0)),
        Err(EcsErrors::EntityComponentMaskDoesNotExist)
    );
    assert_eq!(
        registry.kill_entity(Entity::new(5)),
        Err(EcsErrors::EntityComponentMaskDoesNotExist)
    );
    assert_eq!(
        registry.get_system_entities(MOVEMENT),
        Err(EcsErrors::SystemDoesNotExist)
    );
    assert_eq!(
        registry.get_system_mask(MOVEMENT),
        Err(EcsErrors::SystemDoesNotExist)
    );
    assert_eq!(
        registry.add_entity_to_system(MOVEMENT, Entity::new(0)),
        Err(EcsErrors::SystemDoesNotExist)
    );
    assert_eq!(
        registry.register_component(POSITION),
        Err(EcsErrors::ComponentAlreadyRegistered)
    );

    registry.create_entity();
    assert_eq!(
        registry.register_component(VELOCITY),
        Err(EcsErrors::EntitiesAlreadyCreated)
    );

    let builder_err = SystemMaskBuilder::new(&registry).with(VELOCITY);
    assert!(matches!(builder_err, Err(EcsErrors::ComponentDoesNotExist)));
}

#[test]
fn system_registration_is_idempotent() {
    let mut registry: Registry<u32> = Registry::default();
    assert_eq!(registry.register_system(MOVEMENT, 0b101).unwrap(), true);
    assert_eq!(registry.register_system(MOVEMENT, 0b111).unwrap(), false);
    assert_eq!(registry.get_system_mask(MOVEMENT).unwrap(), 0b101);
    assert_eq!(registry.get_num_systems(), 1);
}

#[test]
fn system_entity_sets_are_copies() {
    let mut registry: Registry<u32> = Registry::default();
    registry.register_component(1).unwrap();
    registry.register_system(MOVEMENT, 0).unwrap();
    let e = registry.create_entity();
    registry.add_entity_to_system(MOVEMENT, e).unwrap();
    registry.add_entity_to_system(MOVEMENT, e).unwrap();

    let mut copy = registry.get_system_entities(MOVEMENT).unwrap();
    assert_eq!(copy, vec![e]);
    copy.clear();
    assert_eq!(registry.get_system_entities(MOVEMENT).unwrap(), vec![e]);

    registry.remove_entity_from_system(MOVEMENT, e).unwrap();
    assert!(registry.get_system_entities(MOVEMENT).unwrap().is_empty());
    registry.remove_entity_from_system_with_id(MOVEMENT, e).unwrap();
    assert!(registry.get_system_entities(MOVEMENT).unwrap().is_empty());
}

#[test]
fn mutable_component_access_updates_storage() {
    let mut registry: Registry<GameComponent> = Registry::default();
    registry.register_component(POSITION).unwrap();
    let e = registry.create_entity();
    registry
        .add_component(e, POSITION, GameComponent::Position(1, 1))
        .unwrap();

    {
        let p = registry.get_component_mut(e, POSITION).unwrap();
        *p = GameComponent::Position(8, 9);
    }
    assert_eq!(
        *registry.get_component(e, POSITION).unwrap(),
        GameComponent::Position(8, 9)
    );
    assert_eq!(
        *registry.get_component_ref(e, POSITION).unwrap(),
        GameComponent::Position(8, 9)
    );
    assert!(matches!(
        registry.get_component_mut(e, VELOCITY),
        Err(EcsErrors::ComponentMaskDoesNotExist)
    ));
}

#[test]
fn stock_system_masks_are_empty() {
    assert_eq!(MovementSystem::get_system_mask(), 0);
    assert_eq!(RenderSystem::get_system_mask(), 0);
}

#[test]
fn error_messages_are_descriptive() {
    assert_eq!(
        EcsErrors::ComponentDoesNotExist.message(),
        "Component is not registered"
    );
    assert_eq!(
        EcsErrors::SystemDoesNotExist.message(),
        "System is not registered"
    );
    assert!(!EcsErrors::MaxComponentReached.message().is_empty());
}
