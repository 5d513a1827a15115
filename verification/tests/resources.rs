use cobalt::resources::{ResourceError, ResourceManager};

const COUNTER: u64 = 1;
const TITLE: u64 = 2;

#[test]
fn second_resource_of_a_type_is_refused() {
    let mut resources: ResourceManager<u32> = ResourceManager::new();
    assert_eq!(resources.create_resource(COUNTER, 7), Ok(()));
    assert_eq!(resources.create_resource(COUNTER, 9), Err(ResourceError::AlreadyExists));
    assert_eq!(resources.get_resource(COUNTER), Some(&7));
    assert_eq!(resources.get_resource(TITLE), None);
}

#[test]
fn removed_resource_can_be_created_again() {
    let mut resources: ResourceManager<u32> = ResourceManager::new();
    assert_eq!(resources.create_resource(COUNTER, 7), Ok(()));
    assert_eq!(resources.remove(COUNTER), Some(7));
    assert_eq!(resources.remove(COUNTER), None);
    assert_eq!(resources.get_resource(COUNTER), None);
    assert_eq!(resources.create_resource(COUNTER, 9), Ok(()));
    *resources.get_resource_mut(COUNTER).unwrap() += 1;
    assert_eq!(resources.get_resource(COUNTER), Some(&10));
}

#[test]
fn resources_of_different_types_do_not_interfere() {
    let mut resources: ResourceManager<String> = ResourceManager::new();
    assert_eq!(resources.create_resource(COUNTER, "zero".to_string()), Ok(()));
    assert_eq!(resources.create_resource(TITLE, "Pong".to_string()), Ok(()));
    resources.get_resource_mut(TITLE).unwrap().push('!');
    assert_eq!(resources.get_resource(COUNTER).map(|s| s.as_str()), Some("zero"));
    assert_eq!(resources.get_resource(TITLE).map(|s| s.as_str()), Some("Pong!"));
    assert!(resources.get_resource_mut(3).is_none());
}

#[test]
fn store_reuses_the_slot_of_a_removed_resource() {
    let mut resources: ResourceManager<u64> = ResourceManager::new();
    for tag in 0..100u64 {
        assert_eq!(resources.create_resource(tag, tag * 2), Ok(()));
    }
    for tag in (0..100u64).filter(|tag| tag % 2 == 0) {
        assert_eq!(resources.remove(tag), Some(tag * 2));
    }
    for tag in 100..150u64 {
        assert_eq!(resources.create_resource(tag, tag * 2), Ok(()));
    }
    for tag in 0..150u64 {
        let expected = if tag < 100 && tag % 2 == 0 { None } else { Some(tag * 2) };
        assert_eq!(resources.get_resource(tag).copied(), expected);
    }
}
