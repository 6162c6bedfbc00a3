use ecs_core::logger::{LogEntry, LogLevel, Logger};
use ecs_core::registry::Registry;

#[test]
fn entries_are_kept_with_their_levels() {
    let mut logger = Logger::default();
    logger.debug("first");
    logger.log("second");
    logger.warning("third");
    logger.error("fourth");

    let entries = logger.get_log_entires();
    assert_eq!(entries.len(), 4);
    assert_eq!(entries[0].level, LogLevel::Debug);
    assert_eq!(entries[1].level, LogLevel::Info);
    assert_eq!(entries[2].level, LogLevel::Warning);
    assert_eq!(entries[3].level, LogLevel::Error);
}

#[test]
fn level_filter_drops_quieter_messages() {
    let mut logger = Logger::default();
    logger.set_log_level(LogLevel::Warning);
    logger.debug("dropped");
    logger.log("dropped too");
    logger.warning("kept");
    logger.error("kept too");

    let entries = logger.get_log_entires();
    assert_eq!(entries.len(), 2);
    assert_eq!(entries[0].level, LogLevel::Warning);
    assert_eq!(entries[1].level, LogLevel::Error);
}

#[test]
fn stored_messages_end_with_the_given_text() {
    let mut logger = Logger::default();
    logger.log("the payload");
    let entries = logger.get_log_entires();
    assert_eq!(entries.len(), 1);
    assert!(entries[0].message.ends_with("the payload"));
    // the stamp in front carries the level prefix and a timestamp
    assert!(entries[0].message.len() > "the payload".len());
}

#[test]
fn log_entry_new_keeps_level_and_message() {
    let entry = LogEntry::new(LogLevel::Warning, "watch out");
    assert_eq!(entry.level, LogLevel::Warning);
    assert_eq!(entry.message, "watch out");
}

#[test]
fn registry_lifecycle_is_logged() {
    let mut registry: Registry<u32> = Registry::default();
    registry.register_component(1).unwrap();
    let e = registry.create_entity();
    registry.add_component(e, 1, 42).unwrap();
    registry.remove_component(e, 1).unwrap();
    registry.kill_entity(e).unwrap();

    let entries = registry.logger.get_log_entires();
    // one entry each for creation, component removal, and the kill mark
    assert_eq!(entries.len(), 3);
    assert!(entries.iter().all(|entry| entry.level == LogLevel::Info));
    assert!(entries[0].message.ends_with("Entity created with id = 0"));
    assert!(entries[1]
        .message
        .ends_with("Component key = 1 was removed from entity id 0"));
    assert!(entries[2].message.ends_with("Entity with id = 0 was marked for removal"));
}
