use cobalt::scene::{Scene, SceneError, SceneGenerator, ScenesManager};

type Generator = Box<dyn Fn(&mut Scene<&'static str>, &mut Vec<String>)>;

fn generator(name: &'static str, entities: u32) -> SceneGenerator<Generator> {
    SceneGenerator::new(Box::new(move |scene: &mut Scene<&'static str>, log: &mut Vec<String>| {
        for i in 0..entities {
            scene.world.spawn((i, name));
        }
        scene.camera = Some(name);
        log.push(name.to_string());
    }))
}

#[test]
fn blank_scene_has_no_entity_and_no_camera() {
    let scene: Scene<u8> = Scene::blank();
    assert_eq!(scene.world.len(), 0);
    assert!(scene.camera.is_none());
}

#[test]
fn no_scene_is_current_before_the_first_load() {
    let mut scenes: ScenesManager<&'static str, Generator> = ScenesManager::new();
    assert!(scenes.current().is_none());
    scenes.add("menu".to_string(), generator("menu", 1));
    assert!(scenes.current().is_none());
    assert!(scenes.current_mut().is_none());
}

#[test]
fn second_load_replaces_the_first_scene() {
    let mut scenes: ScenesManager<&'static str, Generator> = ScenesManager::new();
    let mut log = Vec::new();
    scenes.add("A".to_string(), generator("A", 3));
    scenes.add("B".to_string(), generator("B", 2));

    assert_eq!(scenes.load("A", &mut log), Ok(()));
    assert_eq!(scenes.current().unwrap().world.len(), 3);
    assert_eq!(scenes.current().unwrap().camera, Some("A"));

    assert_eq!(scenes.load("B", &mut log), Ok(()));
    let current = scenes.current_mut().unwrap();
    assert_eq!(current.camera, Some("B"));
    assert_eq!(current.world.len(), 2);
    let names: Vec<&'static str> =
        current.world.query_mut::<&&'static str>().into_iter().map(|(_, name)| *name).collect();
    assert_eq!(names, vec!["B", "B"]);
    assert_eq!(log, vec!["A".to_string(), "B".to_string()]);
}

#[test]
fn failed_load_leaves_the_current_scene() {
    let mut scenes: ScenesManager<&'static str, Generator> = ScenesManager::new();
    let mut log = Vec::new();
    scenes.add("menu".to_string(), generator("menu", 1));
    scenes.add("game".to_string(), generator("game", 4));

    assert_eq!(scenes.load("missing", &mut log), Err(SceneError::NotFound));
    assert!(scenes.current().is_none());
    assert!(log.is_empty());

    assert_eq!(scenes.load("game", &mut log), Ok(()));
    assert_eq!(scenes.load("missing", &mut log), Err(SceneError::NotFound));
    assert_eq!(scenes.current().unwrap().camera, Some("game"));
    assert_eq!(scenes.current().unwrap().world.len(), 4);
    assert_eq!(log, vec!["game".to_string()]);
}

#[test]
fn reloading_a_scene_builds_it_anew() {
    let mut scenes: ScenesManager<&'static str, Generator> = ScenesManager::new();
    let mut log = Vec::new();
    scenes.add("game".to_string(), generator("game", 2));
    assert_eq!(scenes.load("game", &mut log), Ok(()));
    scenes.current_mut().unwrap().world.spawn((7u32, "extra"));
    assert_eq!(scenes.current().unwrap().world.len(), 3);
    assert_eq!(scenes.load("game", &mut log), Ok(()));
    assert_eq!(scenes.current().unwrap().world.len(), 2);
    assert_eq!(log.len(), 2);
}

#[test]
fn later_generator_replaces_the_one_under_its_name() {
    let mut scenes: ScenesManager<&'static str, Generator> = ScenesManager::new();
    let mut log = Vec::new();
    scenes.add("game".to_string(), generator("old", 1));
    assert_eq!(scenes.load("game", &mut log), Ok(()));
    scenes.add("game".to_string(), generator("new", 5));
    // Registering touches nothing that is loaded.
    assert_eq!(scenes.current().unwrap().camera, Some("old"));
    assert_eq!(scenes.load("game", &mut log), Ok(()));
    assert_eq!(scenes.current().unwrap().camera, Some("new"));
    assert_eq!(scenes.current().unwrap().world.len(), 5);
}

#[test]
fn generator_without_a_function_gives_a_blank_scene() {
    let mut scenes: ScenesManager<&'static str, Generator> = ScenesManager::new();
    let mut log = Vec::new();
    scenes.add("empty".to_string(), SceneGenerator { on_load: None });
    assert_eq!(scenes.load("empty", &mut log), Ok(()));
    assert_eq!(scenes.current().unwrap().world.len(), 0);
    assert!(scenes.current().unwrap().camera.is_none());

    let mut late: SceneGenerator<Generator> = SceneGenerator { on_load: None };
    late.on_load(Box::new(|scene: &mut Scene<&'static str>, _: &mut Vec<String>| {
        scene.camera = Some("late");
    }));
    let built = late.generate(&mut log);
    assert_eq!(built.camera, Some("late"));
}
