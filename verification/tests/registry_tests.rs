use ecs_core::ecs_errors::EcsErrors;
use ecs_core::registry::Registry;

#[derive(Debug, Clone, Copy, PartialEq)]
enum TestComponent {
    Health(i32),
    Size(i32),
}

const HEALTH: u64 = 1;
const SIZE: u64 = 2;

#[test]
fn removing_components_from_entities() {
    let mut registry: Registry<TestComponent> = Registry::default();
    registry.register_component(HEALTH).unwrap();
    registry.register_component(SIZE).unwrap();
    let entity1 = registry.create_entity();
    let entity2 = registry.create_entity();
    registry
        .add_component(entity1, HEALTH, TestComponent::Health(100))
        .unwrap();
    registry
        .add_component(entity1, SIZE, TestComponent::Size(25))
        .unwrap();
    registry
        .add_component(entity2, SIZE, TestComponent::Size(30))
        .unwrap();

    let health_mask = registry.get_component_signature_by_type(HEALTH).unwrap();
    let size_mask = registry.get_component_signature_by_type(SIZE).unwrap();

    assert_eq!(
        health_mask | size_mask,
        registry.get_entity_component_signature(entity1).unwrap()
    );

    registry.remove_component(entity1, HEALTH).unwrap();

    assert_eq!(
        size_mask,
        registry.get_entity_component_signature(entity1).unwrap()
    );

    registry.remove_component(entity1, SIZE).unwrap();
    registry.remove_component(entity2, SIZE).unwrap();

    assert_eq!(0, registry.get_entity_component_signature(entity1).unwrap());
    assert_eq!(0, registry.get_entity_component_signature(entity2).unwrap());
}

#[test]
fn adding_component_to_entities() {
    let mut registry: Registry<TestComponent> = Registry::default();
    registry.register_component(HEALTH).unwrap();
    registry.register_component(SIZE).unwrap();
    let entity1 = registry.create_entity();
    let entity2 = registry.create_entity();

    registry
        .add_component(entity1, HEALTH, TestComponent::Health(100))
        .unwrap();
    registry
        .add_component(entity1, SIZE, TestComponent::Size(25))
        .unwrap();
    registry
        .add_component(entity2, SIZE, TestComponent::Size(30))
        .unwrap();

    // Testing component values
    let health_vec = &registry.component_stores[0];
    let size_vec = &registry.component_stores[1];

    let entity1_health = health_vec[entity1.0].as_ref().unwrap();
    assert_eq!(TestComponent::Health(100), *entity1_health);

    let entity1_size = size_vec[entity1.0].as_ref().unwrap();
    assert_eq!(TestComponent::Size(25), *entity1_size);

    let entity2_size = size_vec[entity2.0].as_ref().unwrap();
    assert_eq!(TestComponent::Size(30), *entity2_size);

    // Testing entity component masks
    let health_mask = registry.get_component_signature_by_type(HEALTH).unwrap();
    let size_mask = registry.get_component_signature_by_type(SIZE).unwrap();
    let expected_entity1_mask = health_mask | size_mask;
    let expected_entity2_mask = size_mask;

    assert_eq!(
        expected_entity1_mask,
        registry.get_entity_component_signature(entity1).unwrap()
    );
    assert_eq!(
        expected_entity2_mask,
        registry.get_entity_component_signature(entity2).unwrap()
    );
}

#[test]
fn creating_components() {
    let mut registry: Registry<TestComponent> = Registry::default();
    registry.register_component(HEALTH).unwrap();
    registry.register_component(SIZE).unwrap();
    assert_eq!(registry.component_stores.len(), 2);
    assert_eq!(registry.component_keys.len(), 2);
    let health_signature_expected = 1 << 0;
    let size_signature_expected = 1 << 1;
    assert_eq!(
        health_signature_expected,
        registry.get_component_signature_by_type(HEALTH).unwrap()
    );
    assert_eq!(
        size_signature_expected,
        registry.get_component_signature_by_type(SIZE).unwrap()
    );
}

#[test]
fn create_entities() {
    let mut registry: Registry<TestComponent> = Registry::default();
    let entity1 = registry.create_entity();
    let entity2 = registry.create_entity();

    assert_eq!(entity1.0, 0);
    assert_eq!(entity2.0, 1);
    assert_eq!(registry.entities_to_be_added.len(), 2);
    assert_eq!(registry.entities_to_be_added.contains(&entity1), true);
    assert_eq!(registry.entities_to_be_added.contains(&entity2), true);
    assert_eq!(registry.get_num_entities(), 2);

    // every component row is filled with empty slots by default
    for components_vec in registry.component_stores.iter() {
        assert_eq!(components_vec.len(), 2);
        for el in components_vec.iter() {
            assert_eq!(el.is_none(), true);
        }
    }
}

#[test]
fn check_max_components() {
    let mut registry: Registry<TestComponent> = Registry::default();
    for key in 0..32u64 {
        registry.register_component(key).unwrap();
    }

    let type33 = registry.register_component(32);
    assert_eq!(type33.is_err(), true);
    assert_eq!(type33, Err(EcsErrors::MaxComponentReached));
}
