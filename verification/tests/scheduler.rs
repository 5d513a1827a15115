use std::cell::RefCell;
use std::rc::Rc;

use cobalt::app::{App, AppBuilder, BuildError, Context, FrameAction};
use cobalt::scene::{Scene, SceneError, SceneGenerator};
use cobalt::system::{EventCallbackType, System, SystemType};

type TestContext = Context<(), &'static str, (), u64, String>;
type TestGenerator = Box<dyn Fn(&mut Scene<u8>, &mut TestContext)>;
type TestApp = App<(), &'static str, (), u64, String, u8, TestGenerator>;
type TestSystem = Box<dyn FnMut(&mut TestApp, u64)>;
type TestBuilder = AppBuilder<TestSystem, &'static str, ()>;

const COUNTER: u64 = 1;
const MS: u64 = 1_000_000;

fn builder() -> TestBuilder {
    AppBuilder::new().with_renderer("renderer")
}

fn counting(tag: u64) -> TestSystem {
    Box::new(move |app: &mut TestApp, _elapsed: u64| {
        if app.context.resources.get_resource(tag).is_none() {
            app.context.resources.create_resource(tag, 0).unwrap();
        }
        *app.context.resources.get_resource_mut(tag).unwrap() += 1;
    })
}

fn recording(log: &Rc<RefCell<Vec<(&'static str, u64)>>>, name: &'static str) -> TestSystem {
    let log = Rc::clone(log);
    Box::new(move |_app: &mut TestApp, elapsed: u64| log.borrow_mut().push((name, elapsed)))
}

fn count(app: &TestApp, tag: u64) -> Option<u64> {
    app.context.resources.get_resource(tag).copied()
}

#[test]
fn application_begins_with_an_empty_builder() {
    let builder: TestBuilder = TestApp::new();
    assert!(builder.systems.is_empty());
    assert!(builder.renderer.is_none());
    assert!(builder.physics.is_none());
}

#[test]
fn builder_without_a_renderer_builds_nothing() {
    let mut bare: TestBuilder = AppBuilder::new().with_physics(());
    let built: Result<TestApp, BuildError> = bare.build((), 0);
    assert_eq!(built.err(), Some(BuildError::NoRenderer));
    assert_eq!(bare.physics, Some(()));
}

#[test]
fn built_application_starts_empty() {
    let mut builder = builder().with_physics(());
    let app: TestApp = builder.build((), 42).unwrap();
    assert_eq!(app.context.renderer, "renderer");
    assert_eq!(app.context.physics, Some(()));
    assert!(builder.renderer.is_none());
    assert!(builder.physics.is_none());
    assert!(app.scenes.current().is_none());
    assert_eq!(count(&app, COUNTER), None);
    assert_eq!(app.context.perf_stats.collection_duration, 500 * MS);
    assert_eq!(app.context.perf_stats.last_collection, 42);
    assert_eq!(app.context.perf_stats.frame_counter, 0);
}

#[test]
fn startup_system_runs_once_whatever_ticks_follow() {
    let mut builder = builder();
    builder.register_system(System::startup("init".to_string(), counting(COUNTER)));
    let mut app: TestApp = builder.build((), 0).unwrap();
    builder.start(&mut app, 0);
    assert_eq!(count(&app, COUNTER), Some(1));
    assert!(builder.systems.is_empty());
    for frame in 1..=50u64 {
        builder.tick(&mut app, frame * 16 * MS);
    }
    builder.start(&mut app, 900 * MS);
    assert_eq!(count(&app, COUNTER), Some(1));
}

#[test]
fn startup_system_never_runs_without_the_start() {
    let mut builder = builder();
    builder.register_system(System::startup("init".to_string(), counting(COUNTER)));
    let mut app: TestApp = builder.build((), 0).unwrap();
    for frame in 1..=50u64 {
        builder.tick(&mut app, frame * 16 * MS);
    }
    builder.dispatch_event(EventCallbackType::WindowResize, &mut app, 900 * MS);
    builder.shutdown(&mut app, 901 * MS);
    assert_eq!(count(&app, COUNTER), None);
    assert_eq!(builder.systems.len(), 1);
}

#[test]
fn late_timed_system_runs_once_per_tick() {
    let log = Rc::new(RefCell::new(Vec::new()));
    let mut builder = builder();
    builder.register_system(System::timed("timed".to_string(), None, recording(&log, "timed"), 100 * MS));
    let mut app: TestApp = builder.build((), 0).unwrap();
    builder.start(&mut app, 0);
    builder.tick(&mut app, 0);
    assert!(log.borrow().is_empty());
    builder.tick(&mut app, 250 * MS);
    assert_eq!(*log.borrow(), vec![("timed", 250 * MS)]);
    builder.tick(&mut app, 250 * MS);
    builder.tick(&mut app, 349 * MS);
    assert_eq!(log.borrow().len(), 1);
    builder.tick(&mut app, 350 * MS);
    assert_eq!(*log.borrow(), vec![("timed", 250 * MS), ("timed", 100 * MS)]);
    assert_eq!(builder.systems[0].last_run, 350 * MS);
}

#[test]
fn counter_counts_a_thousand_ticks() {
    let mut builder = builder();
    builder.register_system(System::startup(
        "make counter".to_string(),
        Box::new(|app: &mut TestApp, _: u64| {
            app.context.resources.create_resource(COUNTER, 0).unwrap();
        }),
    ));
    builder.register_system(System::update(
        "count".to_string(),
        None,
        Box::new(|app: &mut TestApp, _: u64| {
            *app.context.resources.get_resource_mut(COUNTER).unwrap() += 1;
        }),
    ));
    let mut app: TestApp = builder.build((), 0).unwrap();
    builder.start(&mut app, 0);
    assert_eq!(count(&app, COUNTER), Some(0));
    let mut last = 0;
    for frame in 1..=1000u64 {
        builder.tick(&mut app, frame * MS);
        let now = count(&app, COUNTER).unwrap();
        assert!(now > last);
        last = now;
    }
    assert_eq!(count(&app, COUNTER), Some(1000));
}

#[test]
fn systems_run_in_the_order_of_registration() {
    let log = Rc::new(RefCell::new(Vec::new()));
    let mut builder = builder();
    builder.register_system(System::update("a".to_string(), None, recording(&log, "a")));
    builder.register_system(System::startup("s1".to_string(), recording(&log, "s1")));
    builder.register_system(System::timed("t".to_string(), Some("game".to_string()), recording(&log, "t"), 10 * MS));
    builder.register_system(System::startup("s2".to_string(), recording(&log, "s2")));
    builder.register_system(System::event_callback(
        "e".to_string(),
        recording(&log, "e"),
        EventCallbackType::ShutDown,
    ));
    builder.register_system(System::update("b".to_string(), None, recording(&log, "b")));
    let mut app: TestApp = builder.build((), 0).unwrap();

    builder.start(&mut app, 5 * MS);
    assert_eq!(*log.borrow(), vec![("s1", 0), ("s2", 0)]);
    let names: Vec<&str> = builder.systems.iter().map(|s| s.name.as_str()).collect();
    assert_eq!(names, vec!["a", "t", "e", "b"]);
    assert!(builder.systems.iter().all(|s| s.last_run == 5 * MS));

    log.borrow_mut().clear();
    builder.tick(&mut app, 8 * MS);
    assert_eq!(*log.borrow(), vec![("a", 3 * MS), ("b", 3 * MS)]);
    builder.tick(&mut app, 15 * MS);
    assert_eq!(
        *log.borrow(),
        vec![("a", 3 * MS), ("b", 3 * MS), ("a", 7 * MS), ("t", 10 * MS), ("b", 7 * MS)]
    );
}

#[test]
fn event_reaches_only_the_systems_that_wait_for_it() {
    let log = Rc::new(RefCell::new(Vec::new()));
    let mut builder = builder();
    builder.register_system(System::event_callback(
        "resize".to_string(),
        recording(&log, "resize"),
        EventCallbackType::WindowResize,
    ));
    builder.register_system(System::event_callback(
        "bye".to_string(),
        recording(&log, "bye"),
        EventCallbackType::ShutDown,
    ));
    builder.register_system(System::update("every".to_string(), None, recording(&log, "every")));
    let mut app: TestApp = builder.build((), 0).unwrap();
    builder.start(&mut app, 10);

    builder.dispatch_event(EventCallbackType::WindowResize, &mut app, 30);
    builder.dispatch_event(EventCallbackType::WindowResize, &mut app, 50);
    assert_eq!(*log.borrow(), vec![("resize", 20), ("resize", 20)]);
    assert_eq!(builder.systems[0].last_run, 50);
    assert_eq!(builder.systems[1].last_run, 10);

    log.borrow_mut().clear();
    builder.tick(&mut app, 60);
    assert_eq!(*log.borrow(), vec![("every", 50)]);

    log.borrow_mut().clear();
    builder.run_event_system(EventCallbackType::ShutDown, &mut app, 70);
    builder.run_event_system(EventCallbackType::ShutDown, &mut app, 75);
    assert_eq!(*log.borrow(), vec![("bye", 60), ("bye", 5)]);
    assert_eq!(builder.systems[1].last_run, 75);
    assert_eq!(builder.systems[0].last_run, 50);
    assert_eq!(builder.systems[2].last_run, 60);
}

#[test]
fn shutdown_runs_its_systems_and_drops_every_asset() {
    let log = Rc::new(RefCell::new(Vec::new()));
    let mut builder = builder();
    builder.register_system(System::event_callback(
        "bye".to_string(),
        recording(&log, "bye"),
        EventCallbackType::ShutDown,
    ));
    let mut app: TestApp = builder.build((), 0).unwrap();
    builder.start(&mut app, 0);
    let handle = app.context.assets.create_asset("font".to_string()).unwrap();
    builder.shutdown(&mut app, 5);
    assert_eq!(*log.borrow(), vec![("bye", 5)]);
    assert_eq!(app.context.assets.get(&handle), None);
    assert_eq!(builder.systems.len(), 1);
    assert_eq!(builder.systems[0].last_run, 5);
}

#[test]
fn tick_reconciles_the_assets_after_the_systems() {
    let mut builder = builder();
    let ids = Rc::new(RefCell::new(Vec::new()));
    let seen = Rc::clone(&ids);
    builder.register_system(System::update(
        "churn".to_string(),
        None,
        Box::new(move |app: &mut TestApp, _: u64| {
            let handle = app.context.assets.create_asset("temporary".to_string()).unwrap();
            seen.borrow_mut().push(handle.id());
            assert_eq!(app.context.assets.get(&handle).map(|s| s.as_str()), Some("temporary"));
            app.context.assets.drop_asset(handle);
        }),
    ));
    let mut app: TestApp = builder.build((), 0).unwrap();
    builder.start(&mut app, 0);
    builder.tick(&mut app, 1);
    builder.tick(&mut app, 2);
    assert_eq!(*ids.borrow(), vec![0, 1]);
    assert!(!app.context.assets.is_live(0));
    assert!(!app.context.assets.is_live(1));
}

#[test]
fn tick_says_what_there_is_to_render() {
    let mut builder = builder();
    let mut app: TestApp = builder.build((), 0).unwrap();
    assert_eq!(builder.tick(&mut app, 1), FrameAction::NoScene);

    app.scenes.add("dark".to_string(), SceneGenerator { on_load: None });
    app.scenes.add(
        "lit".to_string(),
        SceneGenerator::new(Box::new(|scene: &mut Scene<u8>, context: &mut TestContext| {
            scene.camera = Some(3);
            context.resources.create_resource(COUNTER, 11).unwrap();
        })),
    );
    assert_eq!(app.load_scene("dark"), Ok(()));
    assert_eq!(builder.tick(&mut app, 2), FrameAction::NoCamera);
    assert_eq!(app.load_scene("lit"), Ok(()));
    assert_eq!(builder.tick(&mut app, 3), FrameAction::Render);
    assert_eq!(count(&app, COUNTER), Some(11));
    assert_eq!(app.context.perf_stats.frame_counter, 3);
}

#[test]
fn missing_scene_leaves_the_loaded_one() {
    let mut builder = builder();
    let mut app: TestApp = builder.build((), 0).unwrap();
    app.scenes.add(
        "menu".to_string(),
        SceneGenerator::new(Box::new(|scene: &mut Scene<u8>, _: &mut TestContext| {
            scene.camera = Some(1);
        })),
    );
    app.scenes.add(
        "game".to_string(),
        SceneGenerator::new(Box::new(|scene: &mut Scene<u8>, _: &mut TestContext| {
            scene.camera = Some(2);
            scene.world.spawn((1u8,));
        })),
    );
    assert_eq!(app.load_scene("missing"), Err(SceneError::NotFound));
    assert!(app.scenes.current().is_none());
    assert_eq!(app.load_scene("menu"), Ok(()));
    assert_eq!(app.load_scene("missing"), Err(SceneError::NotFound));
    assert_eq!(app.scenes.current().unwrap().camera, Some(1));
    assert_eq!(app.load_scene("game"), Ok(()));
    assert_eq!(app.load_scene("missing"), Err(SceneError::NotFound));
    assert_eq!(app.scenes.current().unwrap().camera, Some(2));
    assert_eq!(app.scenes.current().unwrap().world.len(), 1);
}

#[test]
fn system_is_registered_once_per_id() {
    let log = Rc::new(RefCell::new(Vec::new()));
    let mut builder = builder();
    let first = System::update("first".to_string(), None, recording(&log, "first"));
    let id = first.uuid;
    let mut twin = System::update("twin".to_string(), None, recording(&log, "twin"));
    twin.uuid = id;
    let other = System::update("other".to_string(), None, recording(&log, "other"));
    assert_ne!(other.uuid, id);
    builder.register_system(first);
    builder.register_system(twin);
    builder.register_system(other);
    let names: Vec<&str> = builder.systems.iter().map(|s| s.name.as_str()).collect();
    assert_eq!(names, vec!["first", "other"]);
}

#[test]
fn system_gets_a_random_version_four_id() {
    let noop = || -> TestSystem { Box::new(|_: &mut TestApp, _: u64| {}) };
    let a = System::startup("a".to_string(), noop());
    let b = System::event_callback("b".to_string(), noop(), EventCallbackType::WindowResize);
    let c = System::timed("c".to_string(), Some("game".to_string()), noop(), 7);
    let d = System::update("d".to_string(), None, noop());
    for id in [a.uuid, b.uuid, c.uuid, d.uuid] {
        assert_eq!(id & 0x0000_0000_0000_f000_c000_0000_0000_0000, 0x0000_0000_0000_4000_8000_0000_0000_0000);
    }
    assert_ne!(a.uuid, b.uuid);
    assert_eq!(a.system_type, SystemType::Startup);
    assert_eq!(b.system_type, SystemType::EventCallback(EventCallbackType::WindowResize));
    assert_eq!(c.system_type, SystemType::Timed(7));
    assert_eq!(d.system_type, SystemType::Update);
    assert_eq!(c.scene.as_deref(), Some("game"));
    assert_eq!(d.scene, None);
    assert_eq!(a.last_run, 0);
}

#[test]
fn due_follows_the_policy() {
    let noop = || -> TestSystem { Box::new(|_: &mut TestApp, _: u64| {}) };
    let mut timed = System::timed("t".to_string(), None, noop(), 100);
    timed.last_run = 1000;
    assert!(!timed.is_due(1099));
    assert!(timed.is_due(1100));
    assert!(!timed.is_due(900));
    assert_eq!(timed.elapsed(1250), 250);
    assert_eq!(timed.elapsed(900), 0);
    let immediate = System::timed("now".to_string(), None, noop(), 0);
    assert!(immediate.is_due(0));
    assert!(System::update("u".to_string(), None, noop()).is_due(0));
    assert!(!System::startup("s".to_string(), noop()).is_due(u64::MAX));
    assert!(!System::event_callback("e".to_string(), noop(), EventCallbackType::ShutDown).is_due(u64::MAX));
}

#[test]
fn schedule_runs_on_any_state() {
    let mut builder: AppBuilder<Box<dyn FnMut(&mut Vec<u64>, u64)>, (), ()> = AppBuilder::new();
    builder.register_system(System::startup(
        "first".to_string(),
        Box::new(|state: &mut Vec<u64>, elapsed: u64| state.push(elapsed)),
    ));
    builder.register_system(System::update(
        "every".to_string(),
        None,
        Box::new(|state: &mut Vec<u64>, elapsed: u64| state.push(elapsed)),
    ));
    let mut state = Vec::new();
    builder.run_startup_systems(&mut state, 100);
    builder.run_due_systems(&mut state, 130);
    builder.run_due_systems(&mut state, 150);
    assert_eq!(state, vec![0, 30, 20]);
}
