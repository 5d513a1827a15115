//! Scenes: an entity world with an optional camera, built anew by a named
//! generator whenever the scene is loaded.

use vstd::prelude::*;
use crate::index::{name_index_entries, name_index_get, name_index_insert, name_index_new};

verus! {

/// `hecs::World`, as a type whose inside is not looked into.
#[verifier::external_type_specification]
#[verifier::external_body]
pub struct ExWorld(hecs::World);

/// The live entities of a world, each by its 64-bit id.
pub uninterp spec fn world_entities(world: hecs::World) -> Set<u64>;

/// `hecs::World::new`: a world without entities.
#[verifier::external_body]
pub(crate) fn empty_world() -> (world: hecs::World)
    ensures
        world_entities(world) == (Set::<u64>::empty()),
{
    hecs::World::new()
}

/// The entities of a scene, and the camera that views them once the scene has
/// one.
pub struct Scene<C> {
    pub world: hecs::World,
    pub camera: Option<C>,
}

impl<C> Scene<C> {
    /// A scene as a generator finds it: no entity, no camera.
    pub open spec fn is_blank(self) -> bool {
        world_entities(self.world) == Set::<u64>::empty() && self.camera is None
    }

    /// A scene without entities and without a camera.
    pub fn blank() -> (scene: Self)
        ensures
            scene.is_blank(),
    {
        Scene { world: empty_world(), camera: None }
    }
}

/// Why a scene could not be loaded.
#[derive(Clone, Copy, Debug, PartialEq, Eq, Structural)]
pub enum SceneError {
    /// No generator is registered under the name.
    NotFound,
}

/// Builds a scene: holds the function that fills a blank scene when the scene is
/// loaded. The function gets the scene under construction and, apart from it,
/// the application state that it may read and change.
pub struct SceneGenerator<G> {
    pub on_load: Option<G>,
}

impl<G> SceneGenerator<G> {
    /// A generator that runs `f` every time the scene is loaded.
    pub fn new(f: G) -> (generator: Self)
        ensures
            generator.on_load == Some(f),
    {
        SceneGenerator { on_load: Some(f) }
    }

    /// Replaces the function that runs when the scene is loaded.
    pub fn on_load(&mut self, f: G)
        ensures
            final(self).on_load == Some(f),
    {
        self.on_load = Some(f);
    }

    /// The function of the generator accepts a blank scene together with the
    /// application state `app`: all that a load hands to it.
    pub open spec fn accepts<C, A>(self, app: A) -> bool where G: Fn(&mut Scene<C>, &mut A) {
        self.on_load matches Some(f) ==> forall|blank: &mut Scene<C>, state: &mut A|
            mut_ref_current(blank).is_blank() && mut_ref_current(state) == app
                ==> #[trigger] call_requires(f, (blank, state))
    }

    /// Builds the scene: runs the function on a blank scene and the application
    /// state. Without a function the scene stays blank and the state untouched.
    pub fn generate<C, A>(&self, app: &mut A) -> (scene: Scene<C>) where G: Fn(&mut Scene<C>, &mut A)
        requires
            self.accepts::<C, A>(*old(app)),
        ensures
            match self.on_load {
                Some(f) => exists|blank: &mut Scene<C>, state: &mut A|
                    {
                        &&& mut_ref_current(blank).is_blank()
                        &&& mut_ref_current(state) == *old(app)
                        &&& #[trigger] call_ensures(f, (blank, state), ())
                        &&& mut_ref_future(blank) == scene
                        &&& mut_ref_future(state) == *final(app)
                    },
                None => scene.is_blank() && *final(app) == *old(app),
            },
    {
        let mut scene = Scene::blank();
        match &self.on_load {
            Some(f) => {
                f(&mut scene, app);
            },
            None => {},
        }
        scene
    }
}

} // verus!

verus! {

/// The registered scene generators and the scene that is loaded, if any.
pub struct ScenesManager<C, G> {
    scenes: ahash::AHashMap<String, usize>,
    generators: Vec<SceneGenerator<G>>,
    current_scene: Option<Scene<C>>,
}

impl<C, G> ScenesManager<C, G> {
    /// Every registered name points at a generator of its own.
    pub closed spec fn wf(self) -> bool {
        &&& forall|name: Seq<char>| #[trigger]
            name_index_entries(self.scenes).contains_key(name) ==> name_index_entries(
                self.scenes,
            )[name] < self.generators.len()
        &&& forall|a: Seq<char>, b: Seq<char>|
            name_index_entries(self.scenes).contains_key(a) && name_index_entries(
                self.scenes,
            ).contains_key(b) && a != b ==> #[trigger] name_index_entries(self.scenes)[a]
                != #[trigger] name_index_entries(self.scenes)[b]
    }

    /// The registered generators, by scene name.
    pub closed spec fn generators(self) -> Map<Seq<char>, SceneGenerator<G>> {
        Map::new(
            |name: Seq<char>| name_index_entries(self.scenes).contains_key(name),
            |name: Seq<char>| self.generators[name_index_entries(self.scenes)[name] as int],
        )
    }

    /// The scene that is loaded.
    pub closed spec fn current_scene(self) -> Option<Scene<C>> {
        self.current_scene
    }

    /// A manager without generators and without a loaded scene.
    pub fn new() -> (manager: Self)
        ensures
            manager.wf(),
            manager.generators() == (Map::<Seq<char>, SceneGenerator<G>>::empty()),
            manager.current_scene() is None,
    {
        let manager = ScenesManager {
            scenes: name_index_new(),
            generators: Vec::new(),
            current_scene: None,
        };
        assert(manager.generators() =~= Map::<Seq<char>, SceneGenerator<G>>::empty());
        manager
    }

    /// The loaded scene; none before the first successful load.
    pub fn current(&self) -> (scene: Option<&Scene<C>>)
        ensures
            scene == (match self.current_scene() {
                Some(current) => Some(&current),
                None => None,
            }),
    {
        self.current_scene.as_ref()
    }

    /// The loaded scene, for writing.
    pub fn current_mut(&mut self) -> (scene: Option<&mut Scene<C>>)
        ensures
            final(self).generators() == old(self).generators(),
            old(self).wf() ==> final(self).wf(),
            match scene {
                Some(current) => {
                    &&& old(self).current_scene() == Some(*current)
                    &&& final(self).current_scene() == Some(*final(current))
                },
                None => old(self).current_scene() is None && *final(self) == *old(self),
            },
    {
        self.current_scene.as_mut()
    }

    /// Registers `scene_gen` under `name`, in place of a generator that was
    /// registered under that name before. The loaded scene is not touched.
    pub fn add(&mut self, name: String, scene_gen: SceneGenerator<G>)
        requires
            old(self).wf(),
        ensures
            final(self).wf(),
            final(self).generators() == old(self).generators().insert(name@, scene_gen),
            final(self).current_scene() == old(self).current_scene(),
    {
        match name_index_get(&self.scenes, name.as_str()) {
            Some(slot) => {
                self.generators[slot] = scene_gen;
            },
            None => {
                let slot = self.generators.len();
                self.generators.push(scene_gen);
                name_index_insert(&mut self.scenes, name, slot);
            },
        }
        assert(self.generators() =~= old(self).generators().insert(name@, scene_gen));
    }

    /// Loads the scene registered under `name`: lets its generator build a new
    /// scene from a blank one and puts that in place of the loaded scene, which
    /// is dropped. With no generator under `name`, nothing changes.
    pub fn load<A>(&mut self, name: &str, app: &mut A) -> (loaded: Result<(), SceneError>) where
        G: Fn(&mut Scene<C>, &mut A),

        requires
            old(self).wf(),
            old(self).generators().contains_key(name@) ==> old(self).generators()[name@].accepts::<
                C,
                A,
            >(*old(app)),
        ensures
            final(self).wf(),
            final(self).generators() == old(self).generators(),
            match loaded {
                Ok(()) => {
                    &&& old(self).generators().contains_key(name@)
                    &&& final(self).current_scene() is Some
                    &&& match old(self).generators()[name@].on_load {
                        Some(f) => exists|blank: &mut Scene<C>, state: &mut A|
                            {
                                &&& mut_ref_current(blank).is_blank()
                                &&& mut_ref_current(state) == *old(app)
                                &&& #[trigger] call_ensures(f, (blank, state), ())
                                &&& Some(mut_ref_future(blank)) == final(self).current_scene()
                                &&& mut_ref_future(state) == *final(app)
                            },
                        None => final(self).current_scene()->Some_0.is_blank() && *final(app) == *old(app),
                    }
                },
                Err(error) => {
                    &&& error == SceneError::NotFound
                    &&& !old(self).generators().contains_key(name@)
                    &&& *final(self) == *old(self)
                    &&& *final(app) == *old(app)
                },
            },
    {
        match name_index_get(&self.scenes, name) {
            Some(slot) => {
                let scene = self.generators[slot].generate(app);
                self.current_scene = Some(scene);
                Ok(())
            },
            None => Err(SceneError::NotFound),
        }
    }
}

} // verus!
