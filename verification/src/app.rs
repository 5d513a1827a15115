//! The application assembly: the schedule of systems and the hooks that the
//! host's loop calls.

use vstd::prelude::*;
use crate::assets::{apply_messages, AssetManager, Counted, RefCountMessage};
use crate::input::{no_button, Input};
use crate::resources::ResourceManager;
use crate::scene::{Scene, SceneError, SceneGenerator, ScenesManager};
use crate::system::{due_on_tick, elapsed_between, EventCallbackType, System, SystemType};

verus! {

/// The nanoseconds over which frames are counted unless the game says otherwise.
pub const DEFAULT_COLLECTION_DURATION: u64 = 500_000_000;

/// Frames per second when `frames` frames were counted in `duration`
/// nanoseconds, rounded down: zero without frames, and `u64::MAX` where the rate
/// has no bound or does not fit.
pub open spec fn frames_per_second(frames: u64, duration: u64) -> u64 {
    if frames == 0 {
        0
    } else if duration == 0 || frames * 1_000_000_000 / (duration as int) > u64::MAX {
        u64::MAX
    } else {
        (frames * 1_000_000_000 / (duration as int)) as u64
    }
}

/// The nanoseconds per frame when `frames` frames were counted in `duration`
/// nanoseconds, rounded down; zero without frames.
pub open spec fn average_frame_time(frames: u64, duration: u64) -> u64 {
    if frames == 0 {
        0
    } else {
        duration / frames
    }
}

/// Counts frames, and after every collection period says how many there were
/// per second and how long one took on average.
pub struct PerformanceStatistics {
    pub fps: u64,
    pub avg_frame_time: u64,
    pub collection_duration: u64,
    pub frame_counter: u64,
    pub last_collection: u64,
}

impl PerformanceStatistics {
    /// Statistics that start counting at `now`.
    pub fn new(collection_duration: u64, now: u64) -> (stats: Self)
        ensures
            stats == (PerformanceStatistics {
                fps: 0,
                avg_frame_time: 0,
                collection_duration,
                frame_counter: 0,
                last_collection: now,
            }),
    {
        PerformanceStatistics {
            fps: 0,
            avg_frame_time: 0,
            collection_duration,
            frame_counter: 0,
            last_collection: now,
        }
    }

    /// The statistics after a frame at `now`.
    pub open spec fn ticked(self, now: u64) -> Self {
        if elapsed_between(self.last_collection, now) >= self.collection_duration {
            PerformanceStatistics {
                fps: frames_per_second(self.frame_counter, self.collection_duration),
                avg_frame_time: average_frame_time(self.frame_counter, self.collection_duration),
                collection_duration: self.collection_duration,
                frame_counter: 1,
                last_collection: now,
            }
        } else {
            PerformanceStatistics {
                fps: self.fps,
                avg_frame_time: self.avg_frame_time,
                collection_duration: self.collection_duration,
                frame_counter: if self.frame_counter < u64::MAX {
                    (self.frame_counter + 1) as u64
                } else {
                    u64::MAX
                },
                last_collection: self.last_collection,
            }
        }
    }

    /// Counts one frame at `now`. When the collection period is over, the rates
    /// are taken from the frames counted in it, and the count starts again with
    /// this frame.
    pub fn tick(&mut self, now: u64)
        ensures
            *final(self) == old(self).ticked(now),
    {
        let elapsed = if now >= self.last_collection {
            now - self.last_collection
        } else {
            0
        };
        if elapsed >= self.collection_duration {
            self.fps = Self::rate(self.frame_counter, self.collection_duration);
            self.avg_frame_time = if self.frame_counter == 0 {
                0
            } else {
                self.collection_duration / self.frame_counter
            };
            self.frame_counter = 0;
            self.last_collection = now;
        }
        if self.frame_counter < u64::MAX {
            self.frame_counter = self.frame_counter + 1;
        }
    }

    fn rate(frames: u64, duration: u64) -> (fps: u64)
        ensures
            fps == frames_per_second(frames, duration),
    {
        if frames == 0 {
            0
        } else if duration == 0 {
            u64::MAX
        } else {
            let scaled: u128 = (frames as u128) * 1_000_000_000u128 / (duration as u128);
            if scaled > u64::MAX as u128 {
                u64::MAX
            } else {
                scaled as u64
            }
        }
    }
}

/// What the host does after the tick.
#[derive(Clone, Copy, Debug, PartialEq, Eq, Structural)]
pub enum FrameAction {
    /// Hand the loaded scene's world and camera to the renderer.
    Render,
    /// A scene is loaded but has no camera: nothing to render.
    NoCamera,
    /// No scene is loaded: nothing to render.
    NoScene,
}

/// Why an application could not be assembled.
#[derive(Clone, Copy, Debug, PartialEq, Eq, Structural)]
pub enum BuildError {
    /// The builder was given no renderer.
    NoRenderer,
}

/// What the host does for the scene that is loaded.
pub open spec fn frame_action<C>(current: Option<Scene<C>>) -> FrameAction {
    match current {
        None => FrameAction::NoScene,
        Some(scene) => if scene.camera is Some {
            FrameAction::Render
        } else {
            FrameAction::NoCamera
        },
    }
}

/// The application state apart from the scenes: what a scene generator may use
/// while it builds a scene.
pub struct Context<W, Rn, P, R, T> {
    pub window: W,
    pub renderer: Rn,
    pub input: Input,
    pub resources: ResourceManager<R>,
    pub assets: AssetManager<T>,
    pub physics: Option<P>,
    pub perf_stats: PerformanceStatistics,
}

impl<W, Rn, P, R, T> Context<W, Rn, P, R, T> {
    /// The stores are in order.
    pub open spec fn wf(self) -> bool {
        self.resources.wf() && self.assets.wf()
    }
}

/// The state of a running application: what every system gets to work on.
pub struct App<W, Rn, P, R, T, C, G> {
    pub context: Context<W, Rn, P, R, T>,
    pub scenes: ScenesManager<C, G>,
}

impl<W, Rn, P, R, T, C, G> App<W, Rn, P, R, T, C, G> {
    /// The stores and the scenes are in order.
    pub open spec fn wf(self) -> bool {
        self.context.wf() && self.scenes.wf()
    }

    /// The builder with which an application begins: no system, no renderer, no
    /// physics yet.
    pub fn new<F>() -> (builder: AppBuilder<F, Rn, P>)
        ensures
            builder.systems@ == Seq::<System<F>>::empty(),
            builder.renderer is None,
            builder.physics is None,
    {
        AppBuilder::new()
    }

    /// Loads the scene registered under `name`. Its generator builds the new
    /// scene with the context at hand; the scene that was loaded is dropped.
    /// With no generator under `name`, nothing changes.
    pub fn load_scene(&mut self, name: &str) -> (loaded: Result<(), SceneError>) where
        G: Fn(&mut Scene<C>, &mut Context<W, Rn, P, R, T>),

        requires
            old(self).wf(),
            old(self).scenes.generators().contains_key(name@) ==> old(self).scenes.generators()[name@].accepts::<
                C,
                Context<W, Rn, P, R, T>,
            >(old(self).context),
            forall|scene: &mut Scene<C>, context: &mut Context<W, Rn, P, R, T>|
                old(self).scenes.generators().contains_key(name@)
                    && old(self).scenes.generators()[name@].on_load is Some
                    && mut_ref_current(scene).is_blank() && mut_ref_current(context) == old(self).context
                    && #[trigger] call_ensures(
                    old(self).scenes.generators()[name@].on_load->Some_0,
                    (scene, context),
                    (),
                ) ==> mut_ref_future(context).wf(),
        ensures
            final(self).wf(),
            final(self).scenes.generators() == old(self).scenes.generators(),
            match loaded {
                Ok(()) => {
                    &&& old(self).scenes.generators().contains_key(name@)
                    &&& final(self).scenes.current_scene() is Some
                    &&& match old(self).scenes.generators()[name@].on_load {
                        Some(f) => exists|blank: &mut Scene<C>, context: &mut Context<W, Rn, P, R, T>|
                            {
                                &&& mut_ref_current(blank).is_blank()
                                &&& mut_ref_current(context) == old(self).context
                                &&& #[trigger] call_ensures(f, (blank, context), ())
                                &&& Some(mut_ref_future(blank)) == final(self).scenes.current_scene()
                                &&& mut_ref_future(context) == final(self).context
                            },
                        None => final(self).scenes.current_scene()->Some_0.is_blank() && final(self).context == old(self).context,
                    }
                },
                Err(error) => {
                    &&& error == SceneError::NotFound
                    &&& !old(self).scenes.generators().contains_key(name@)
                    &&& *final(self) == *old(self)
                },
            },
    {
        self.scenes.load(name, &mut self.context)
    }
}

/// The schedule of an application under construction, with the renderer and the
/// physics that the host will drive.
pub struct AppBuilder<F, R, P> {
    pub systems: Vec<System<F>>,
    pub renderer: Option<R>,
    pub physics: Option<P>,
}

/// The schedule after the start at `now`: the startup systems are gone, and the
/// clock of every other system starts at `now`.
pub open spec fn after_startup<F>(systems: Seq<System<F>>, now: u64) -> Seq<System<F>>
    decreases systems.len(),
{
    if systems.len() == 0 {
        systems
    } else if systems.last().system_type == SystemType::Startup {
        after_startup(systems.drop_last(), now)
    } else {
        after_startup(systems.drop_last(), now).push(systems.last().ran_at(now))
    }
}

/// The schedule after a tick at `now`: the clock of every system that was due
/// is put at `now`.
pub open spec fn after_tick<F>(systems: Seq<System<F>>, now: u64) -> Seq<System<F>> {
    Seq::new(
        systems.len(),
        |i: int|
            if due_on_tick(systems[i].system_type, systems[i].last_run, now) {
                systems[i].ran_at(now)
            } else {
                systems[i]
            },
    )
}

/// The schedule after `event` was dispatched at `now`: the clock of every system
/// that waits for the event is put at `now`.
pub open spec fn after_event<F>(systems: Seq<System<F>>, event: EventCallbackType, now: u64) -> Seq<
    System<F>,
> {
    Seq::new(
        systems.len(),
        |i: int|
            if systems[i].system_type == SystemType::EventCallback(event) {
                systems[i].ran_at(now)
            } else {
                systems[i]
            },
    )
}

/// Every one of `systems` accepts every application state that meets `inv`,
/// with every elapsed time.
pub open spec fn systems_accept<A, F: FnMut(&mut A, u64)>(
    systems: Seq<System<F>>,
    inv: spec_fn(A) -> bool,
) -> bool {
    forall|i: int, app: &mut A, elapsed: u64|
        0 <= i < systems.len() && inv(mut_ref_current(app)) ==> #[trigger] call_requires(
            systems[i].update,
            (app, elapsed),
        )
}

/// Every callback of `after` is the callback of one of `before`.
pub open spec fn callbacks_from<F>(after: Seq<System<F>>, before: Seq<System<F>>) -> bool {
    forall|i: int|
        0 <= i < after.len() ==> exists|j: int|
            0 <= j < before.len() && (#[trigger] after[i]).update == (#[trigger] before[j]).update
}

/// Whether one of `systems` has the id `uuid`.
pub open spec fn is_registered<F>(systems: Seq<System<F>>, uuid: u128) -> bool {
    exists|i: int| 0 <= i < systems.len() && #[trigger] systems[i].uuid == uuid
}

impl<F, R, P> AppBuilder<F, R, P> {
    /// Every system accepts every application state that meets `inv`, with
    /// every elapsed time.
    pub open spec fn accepts<A>(self, inv: spec_fn(A) -> bool) -> bool where F: FnMut(&mut A, u64) {
        systems_accept(self.systems@, inv)
    }

    /// Every system accepts every application state and every elapsed time.
    pub open spec fn accepts_all<A>(self) -> bool where F: FnMut(&mut A, u64) {
        self.accepts(|app: A| true)
    }

    /// A schedule without systems, renderer or physics.
    pub fn new() -> (builder: Self)
        ensures
            builder.systems@ == (Seq::<System<F>>::empty()),
            builder.renderer is None,
            builder.physics is None,
    {
        AppBuilder { systems: Vec::new(), renderer: None, physics: None }
    }

    /// Appends `system` to the schedule, unless a system with its id is
    /// registered already.
    pub fn register_system(&mut self, system: System<F>)
        ensures
            final(self).renderer == old(self).renderer,
            final(self).physics == old(self).physics,
            final(self).systems@ == (if is_registered(old(self).systems@, system.uuid) {
                old(self).systems@
            } else {
                old(self).systems@.push(system)
            }),
    {
        let mut i: usize = 0;
        while i < self.systems.len()
            invariant
                *self == *old(self),
                i <= self.systems.len(),
                forall|j: int| 0 <= j < i ==> self.systems[j].uuid != system.uuid,
            decreases self.systems.len() - i,
        {
            if self.systems[i].uuid == system.uuid {
                return ;
            }
            i = i + 1;
        }
        self.systems.push(system);
    }

    /// Sets the renderer.
    pub fn with_renderer(self, renderer: R) -> (builder: Self)
        ensures
            builder.systems == self.systems,
            builder.renderer == Some(renderer),
            builder.physics == self.physics,
    {
        AppBuilder { systems: self.systems, renderer: Some(renderer), physics: self.physics }
    }

    /// Sets the physics.
    pub fn with_physics(self, physics: P) -> (builder: Self)
        ensures
            builder.systems == self.systems,
            builder.renderer == self.renderer,
            builder.physics == Some(physics),
    {
        AppBuilder { systems: self.systems, renderer: self.renderer, physics: Some(physics) }
    }

    /// Runs the systems that wait for `event` on states that meet `inv`.
    pub(crate) fn event_pass<A>(
        &mut self,
        event: EventCallbackType,
        app: &mut A,
        now: u64,
        Ghost(inv): Ghost<spec_fn(A) -> bool>,
    ) where F: FnMut(&mut A, u64)

        requires
            old(self).accepts(inv),
            inv(*old(app)),
            forall|i: int, state: &mut A, elapsed: u64|
                0 <= i < old(self).systems.len() && inv(mut_ref_current(state))
                    && #[trigger] call_ensures(old(self).systems[i].update, (state, elapsed), ())
                    ==> inv(mut_ref_future(state)),
        ensures
            inv(*final(app)),
            final(self).accepts(inv),
            forall|i: int, state: &mut A, elapsed: u64|
                0 <= i < final(self).systems.len() && inv(mut_ref_current(state))
                    && #[trigger] call_ensures(final(self).systems[i].update, (state, elapsed), ())
                    ==> inv(mut_ref_future(state)),
            final(self).systems@ == after_event(old(self).systems@, event, now),
            final(self).renderer == old(self).renderer,
            final(self).physics == old(self).physics,
            exists|states: Seq<A>|
                {
                    &&& states.len() == old(self).systems.len() + 1
                    &&& states[0] == *old(app)
                    &&& states[old(self).systems.len() as int] == *final(app)
                    &&& forall|i: int|
                        #![trigger old(self).systems[i]]
                        0 <= i < old(self).systems.len() ==> if old(self).systems[i].system_type
                            == SystemType::EventCallback(event) {
                            exists|state: &mut A|
                                {
                                    &&& mut_ref_current(state) == states[i]
                                    &&& mut_ref_future(state) == states[i + 1]
                                    &&& #[trigger] call_ensures(
                                        old(self).systems[i].update,
                                        (state, elapsed_between(old(self).systems[i].last_run, now)),
                                        (),
                                    )
                                }
                        } else {
                            states[i + 1] == states[i]
                        }
                },
    {
        broadcast use vstd::function::group_function_axioms;

        let ghost mut states: Seq<A> = seq![*app];
        let mut i: usize = 0;
        while i < self.systems.len()
            invariant
                self.systems.len() == old(self).systems.len(),
                self.renderer == old(self).renderer,
                self.physics == old(self).physics,
                inv(*app),
                forall|k: int|
                    #![trigger old(self).systems[k]]
                    0 <= k < self.systems.len() ==> self.systems[k].update == old(self).systems[k].update,
                forall|k: int, state: &mut A, elapsed: u64|
                    0 <= k < old(self).systems.len() && inv(mut_ref_current(state))
                        ==> #[trigger] call_requires(old(self).systems[k].update, (state, elapsed)),
                forall|k: int, state: &mut A, elapsed: u64|
                    0 <= k < old(self).systems.len() && inv(mut_ref_current(state))
                        && #[trigger] call_ensures(old(self).systems[k].update, (state, elapsed), ())
                        ==> inv(mut_ref_future(state)),
                i <= self.systems.len(),
                forall|k: int|
                    #![trigger old(self).systems[k]]
                    0 <= k < i ==> self.systems[k] == after_event(old(self).systems@, event, now)[k],
                forall|k: int|
                    #![trigger old(self).systems[k]]
                    i <= k < self.systems.len() ==> self.systems[k] == old(self).systems[k],
                states.len() == i + 1,
                states[0] == *old(app),
                states[i as int] == *app,
                forall|j: int|
                    #![trigger old(self).systems[j]]
                    0 <= j < i ==> if old(self).systems[j].system_type
                        == SystemType::EventCallback(event) {
                        exists|state: &mut A|
                            {
                                &&& mut_ref_current(state) == states[j]
                                &&& mut_ref_future(state) == states[j + 1]
                                &&& #[trigger] call_ensures(
                                    old(self).systems[j].update,
                                    (state, elapsed_between(old(self).systems[j].last_run, now)),
                                    (),
                                )
                            }
                    } else {
                        states[j + 1] == states[j]
                    },
            decreases self.systems.len() - i,
        {
            assert(self.systems[i as int] == old(self).systems[i as int]);
            let runs = match self.systems[i].system_type {
                SystemType::EventCallback(e) => e == event,
                _ => false,
            };
            if runs {
                let elapsed = self.systems[i].elapsed(now);
                let system = &mut self.systems[i];
                (system.update)(app, elapsed);
                system.last_run = now;
            }
            proof {
                states = states.push(*app);
            }
            i = i + 1;
        }
        assert(self.systems@ =~= after_event(old(self).systems@, event, now));
        proof {
            event_keeps_callbacks(old(self).systems@, event, now);
            callbacks_carry_over(old(self).systems@, self.systems@, inv);
        }
    }

    /// Runs the systems that are due on a tick at `now`, on states that meet
    /// `inv`.
    pub(crate) fn tick_pass<A>(&mut self, app: &mut A, now: u64, Ghost(inv): Ghost<spec_fn(A) -> bool>) where
        F: FnMut(&mut A, u64),

        requires
            old(self).accepts(inv),
            inv(*old(app)),
            forall|i: int, state: &mut A, elapsed: u64|
                0 <= i < old(self).systems.len() && inv(mut_ref_current(state))
                    && #[trigger] call_ensures(old(self).systems[i].update, (state, elapsed), ())
                    ==> inv(mut_ref_future(state)),
        ensures
            inv(*final(app)),
            final(self).accepts(inv),
            forall|i: int, state: &mut A, elapsed: u64|
                0 <= i < final(self).systems.len() && inv(mut_ref_current(state))
                    && #[trigger] call_ensures(final(self).systems[i].update, (state, elapsed), ())
                    ==> inv(mut_ref_future(state)),
            final(self).systems@ == after_tick(old(self).systems@, now),
            final(self).renderer == old(self).renderer,
            final(self).physics == old(self).physics,
            exists|states: Seq<A>|
                {
                    &&& states.len() == old(self).systems.len() + 1
                    &&& states[0] == *old(app)
                    &&& states[old(self).systems.len() as int] == *final(app)
                    &&& forall|i: int|
                        #![trigger old(self).systems[i]]
                        0 <= i < old(self).systems.len() ==> if due_on_tick(
                            old(self).systems[i].system_type,
                            old(self).systems[i].last_run,
                            now,
                        ) {
                            exists|state: &mut A|
                                {
                                    &&& mut_ref_current(state) == states[i]
                                    &&& mut_ref_future(state) == states[i + 1]
                                    &&& #[trigger] call_ensures(
                                        old(self).systems[i].update,
                                        (state, elapsed_between(old(self).systems[i].last_run, now)),
                                        (),
                                    )
                                }
                        } else {
                            states[i + 1] == states[i]
                        }
                },
    {
        broadcast use vstd::function::group_function_axioms;

        let ghost mut states: Seq<A> = seq![*app];
        let mut i: usize = 0;
        while i < self.systems.len()
            invariant
                self.systems.len() == old(self).systems.len(),
                self.renderer == old(self).renderer,
                self.physics == old(self).physics,
                inv(*app),
                forall|k: int|
                    #![trigger old(self).systems[k]]
                    0 <= k < self.systems.len() ==> self.systems[k].update == old(self).systems[k].update,
                forall|k: int, state: &mut A, elapsed: u64|
                    0 <= k < old(self).systems.len() && inv(mut_ref_current(state))
                        ==> #[trigger] call_requires(old(self).systems[k].update, (state, elapsed)),
                forall|k: int, state: &mut A, elapsed: u64|
                    0 <= k < old(self).systems.len() && inv(mut_ref_current(state))
                        && #[trigger] call_ensures(old(self).systems[k].update, (state, elapsed), ())
                        ==> inv(mut_ref_future(state)),
                i <= self.systems.len(),
                forall|k: int|
                    #![trigger old(self).systems[k]]
                    0 <= k < i ==> self.systems[k] == after_tick(old(self).systems@, now)[k],
                forall|k: int|
                    #![trigger old(self).systems[k]]
                    i <= k < self.systems.len() ==> self.systems[k] == old(self).systems[k],
                states.len() == i + 1,
                states[0] == *old(app),
                states[i as int] == *app,
                forall|j: int|
                    #![trigger old(self).systems[j]]
                    0 <= j < i ==> if due_on_tick(
                        old(self).systems[j].system_type,
                        old(self).systems[j].last_run,
                        now,
                    ) {
                        exists|state: &mut A|
                            {
                                &&& mut_ref_current(state) == states[j]
                                &&& mut_ref_future(state) == states[j + 1]
                                &&& #[trigger] call_ensures(
                                    old(self).systems[j].update,
                                    (state, elapsed_between(old(self).systems[j].last_run, now)),
                                    (),
                                )
                            }
                    } else {
                        states[j + 1] == states[j]
                    },
            decreases self.systems.len() - i,
        {
            assert(self.systems[i as int] == old(self).systems[i as int]);
            if self.systems[i].is_due(now) {
                let elapsed = self.systems[i].elapsed(now);
                let system = &mut self.systems[i];
                (system.update)(app, elapsed);
                system.last_run = now;
            }
            proof {
                states = states.push(*app);
            }
            i = i + 1;
        }
        assert(self.systems@ =~= after_tick(old(self).systems@, now));
        proof {
            tick_keeps_callbacks(old(self).systems@, now);
            callbacks_carry_over(old(self).systems@, self.systems@, inv);
        }
    }

    /// Starts the schedule at `now`, on states that meet `inv`.
    pub(crate) fn startup_pass<A>(&mut self, app: &mut A, now: u64, Ghost(inv): Ghost<spec_fn(A) -> bool>) where
        F: FnMut(&mut A, u64),

        requires
            old(self).accepts(inv),
            inv(*old(app)),
            forall|i: int, state: &mut A, elapsed: u64|
                0 <= i < old(self).systems.len() && inv(mut_ref_current(state))
                    && #[trigger] call_ensures(old(self).systems[i].update, (state, elapsed), ())
                    ==> inv(mut_ref_future(state)),
        ensures
            inv(*final(app)),
            final(self).accepts(inv),
            forall|i: int, state: &mut A, elapsed: u64|
                0 <= i < final(self).systems.len() && inv(mut_ref_current(state))
                    && #[trigger] call_ensures(final(self).systems[i].update, (state, elapsed), ())
                    ==> inv(mut_ref_future(state)),
            final(self).systems@ == after_startup(old(self).systems@, now),
            final(self).renderer == old(self).renderer,
            final(self).physics == old(self).physics,
            exists|states: Seq<A>|
                {
                    &&& states.len() == old(self).systems.len() + 1
                    &&& states[0] == *old(app)
                    &&& states[old(self).systems.len() as int] == *final(app)
                    &&& forall|i: int|
                        #![trigger old(self).systems[i]]
                        0 <= i < old(self).systems.len() ==> if old(self).systems[i].system_type
                            == SystemType::Startup {
                            exists|state: &mut A|
                                {
                                    &&& mut_ref_current(state) == states[i]
                                    &&& mut_ref_future(state) == states[i + 1]
                                    &&& #[trigger] call_ensures(
                                        old(self).systems[i].update,
                                        (state, 0u64),
                                        (),
                                    )
                                }
                        } else {
                            states[i + 1] == states[i]
                        }
                },
    {
        broadcast use vstd::function::group_function_axioms;

        let ghost all = old(self).systems@;
        let ghost mut states: Seq<A> = seq![*app];
        let ghost mut k: int = 0;
        let mut i: usize = 0;
        assert(all.take(0) =~= Seq::<System<F>>::empty());
        assert(all.skip(0) =~= all);
        while i < self.systems.len()
            invariant
                all == old(self).systems@,
                self.renderer == old(self).renderer,
                self.physics == old(self).physics,
                inv(*app),
                forall|j: int, state: &mut A, elapsed: u64|
                    0 <= j < all.len() && inv(mut_ref_current(state)) ==> #[trigger] call_requires(
                        all[j].update,
                        (state, elapsed),
                    ),
                forall|j: int, state: &mut A, elapsed: u64|
                    0 <= j < all.len() && inv(mut_ref_current(state)) && #[trigger] call_ensures(
                        all[j].update,
                        (state, elapsed),
                        (),
                    ) ==> inv(mut_ref_future(state)),
                0 <= k <= all.len(),
                i == after_startup(all.take(k), now).len(),
                self.systems@ == after_startup(all.take(k), now) + all.skip(k),
                states.len() == k + 1,
                states[0] == *old(app),
                states[k] == *app,
                forall|j: int|
                    #![trigger all[j]]
                    0 <= j < k ==> if all[j].system_type == SystemType::Startup {
                        exists|state: &mut A|
                            {
                                &&& mut_ref_current(state) == states[j]
                                &&& mut_ref_future(state) == states[j + 1]
                                &&& #[trigger] call_ensures(all[j].update, (state, 0u64), ())
                            }
                    } else {
                        states[j + 1] == states[j]
                    },
            decreases self.systems.len() - i,
        {
            let ghost kept = after_startup(all.take(k), now);
            proof {
                assert(self.systems@[i as int] == all.skip(k)[0]);
                assert(all.take(k + 1).drop_last() =~= all.take(k));
                assert(all.take(k + 1).last() == all[k]);
            }
            let is_startup = match self.systems[i].system_type {
                SystemType::Startup => true,
                _ => false,
            };
            if is_startup {
                let system = &mut self.systems[i];
                (system.update)(app, 0);
                self.systems.remove(i);
                proof {
                    assert(self.systems@ =~= kept + all.skip(k + 1));
                }
            } else {
                let system = &mut self.systems[i];
                system.last_run = now;
                proof {
                    assert(self.systems@ =~= kept.push(all[k].ran_at(now)) + all.skip(k + 1));
                }
                i = i + 1;
            }
            proof {
                states = states.push(*app);
                k = k + 1;
            }
        }
        proof {
            assert(all.skip(k).len() == 0);
            assert(all.take(k) =~= all);
            assert(self.systems@ =~= after_startup(all, now));
            start_keeps_callbacks(all, now);
            callbacks_carry_over(all, self.systems@, inv);
        }
    }

    /// Starts the schedule at `now`: runs every startup system, in the order of
    /// registration, each once, on the state that the one before it left, and
    /// takes it off the schedule for good. The clock of every other system
    /// starts at `now`.
    pub fn run_startup_systems<A>(&mut self, app: &mut A, now: u64) where F: FnMut(&mut A, u64)
        requires
            old(self).accepts_all::<A>(),
        ensures
            final(self).accepts_all::<A>(),
            final(self).systems@ == after_startup(old(self).systems@, now),
            final(self).renderer == old(self).renderer,
            final(self).physics == old(self).physics,
            exists|states: Seq<A>|
                {
                    &&& states.len() == old(self).systems.len() + 1
                    &&& states[0] == *old(app)
                    &&& states[old(self).systems.len() as int] == *final(app)
                    &&& forall|i: int|
                        #![trigger old(self).systems[i]]
                        0 <= i < old(self).systems.len() ==> if old(self).systems[i].system_type
                            == SystemType::Startup {
                            exists|state: &mut A|
                                {
                                    &&& mut_ref_current(state) == states[i]
                                    &&& mut_ref_future(state) == states[i + 1]
                                    &&& #[trigger] call_ensures(
                                        old(self).systems[i].update,
                                        (state, 0u64),
                                        (),
                                    )
                                }
                        } else {
                            states[i + 1] == states[i]
                        }
                },
    {
        self.startup_pass(app, now, Ghost(|app: A| true));
    }

    /// Runs the systems that wait for `event`, in the order of their
    /// registration, each once, on the state that the one before it left and
    /// with the time since its last run, and puts its clock at `now`.
    pub fn run_event_system<A>(&mut self, event: EventCallbackType, app: &mut A, now: u64) where
        F: FnMut(&mut A, u64),

        requires
            old(self).accepts_all::<A>(),
        ensures
            final(self).accepts_all::<A>(),
            final(self).systems@ == after_event(old(self).systems@, event, now),
            final(self).renderer == old(self).renderer,
            final(self).physics == old(self).physics,
            exists|states: Seq<A>|
                {
                    &&& states.len() == old(self).systems.len() + 1
                    &&& states[0] == *old(app)
                    &&& states[old(self).systems.len() as int] == *final(app)
                    &&& forall|i: int|
                        #![trigger old(self).systems[i]]
                        0 <= i < old(self).systems.len() ==> if old(self).systems[i].system_type
                            == SystemType::EventCallback(event) {
                            exists|state: &mut A|
                                {
                                    &&& mut_ref_current(state) == states[i]
                                    &&& mut_ref_future(state) == states[i + 1]
                                    &&& #[trigger] call_ensures(
                                        old(self).systems[i].update,
                                        (state, elapsed_between(old(self).systems[i].last_run, now)),
                                        (),
                                    )
                                }
                        } else {
                            states[i + 1] == states[i]
                        }
                },
    {
        self.event_pass(event, app, now, Ghost(|app: A| true));
    }

    /// One tick of the schedule at `now`: runs every system that is due, in the
    /// order of registration, each once, on the state that the one before it
    /// left and with the time since its last run, and puts its clock at `now`.
    /// Startup systems and event callbacks never run here.
    pub fn run_due_systems<A>(&mut self, app: &mut A, now: u64) where F: FnMut(&mut A, u64)
        requires
            old(self).accepts_all::<A>(),
        ensures
            final(self).accepts_all::<A>(),
            final(self).systems@ == after_tick(old(self).systems@, now),
            final(self).renderer == old(self).renderer,
            final(self).physics == old(self).physics,
            exists|states: Seq<A>|
                {
                    &&& states.len() == old(self).systems.len() + 1
                    &&& states[0] == *old(app)
                    &&& states[old(self).systems.len() as int] == *final(app)
                    &&& forall|i: int|
                        #![trigger old(self).systems[i]]
                        0 <= i < old(self).systems.len() ==> if due_on_tick(
                            old(self).systems[i].system_type,
                            old(self).systems[i].last_run,
                            now,
                        ) {
                            exists|state: &mut A|
                                {
                                    &&& mut_ref_current(state) == states[i]
                                    &&& mut_ref_future(state) == states[i + 1]
                                    &&& #[trigger] call_ensures(
                                        old(self).systems[i].update,
                                        (state, elapsed_between(old(self).systems[i].last_run, now)),
                                        (),
                                    )
                                }
                        } else {
                            states[i + 1] == states[i]
                        }
                },
    {
        self.tick_pass(app, now, Ghost(|app: A| true));
    }
}

} // verus!

verus! {

impl<F, Rn, P> AppBuilder<F, Rn, P> {
    /// Assembles the application around `window`: the renderer and the physics
    /// move from the builder into it, and its stores start empty. Without a
    /// renderer nothing is assembled and the builder stays as it is.
    pub fn build<W, R, T, C, G>(&mut self, window: W, now: u64) -> (built: Result<
        App<W, Rn, P, R, T, C, G>,
        BuildError,
    >)
        ensures
            final(self).systems@ == old(self).systems@,
            match built {
                Ok(app) => {
                    &&& old(self).renderer == Some(app.context.renderer)
                    &&& app.context.physics == old(self).physics
                    &&& final(self).renderer is None
                    &&& final(self).physics is None
                    &&& app.wf()
                    &&& app.context.window == window
                    &&& app.context.input.keys@ == Seq::<(u32, bool)>::empty()
                    &&& app.context.input.mouse == no_button()
                    &&& app.context.resources.resources() == Map::<u64, R>::empty()
                    &&& app.context.assets.assets() == Map::<u64, Counted<T>>::empty()
                    &&& app.context.assets.pending() == Seq::<RefCountMessage>::empty()
                    &&& app.context.assets.next_id() == 0
                    &&& app.context.perf_stats == PerformanceStatistics {
                        fps: 0,
                        avg_frame_time: 0,
                        collection_duration: DEFAULT_COLLECTION_DURATION,
                        frame_counter: 0,
                        last_collection: now,
                    }
                    &&& app.scenes.generators() == Map::<Seq<char>, SceneGenerator<G>>::empty()
                    &&& app.scenes.current_scene() is None
                },
                Err(error) => {
                    &&& error == BuildError::NoRenderer
                    &&& old(self).renderer is None
                    &&& final(self).renderer is None
                    &&& final(self).physics == old(self).physics
                },
            },
    {
        match self.renderer.take() {
            None => Err(BuildError::NoRenderer),
            Some(renderer) => Ok(
                App {
                    context: Context {
                        window,
                        renderer,
                        input: Input::new(),
                        resources: ResourceManager::new(),
                        assets: AssetManager::new(),
                        physics: self.physics.take(),
                        perf_stats: PerformanceStatistics::new(DEFAULT_COLLECTION_DURATION, now),
                    },
                    scenes: ScenesManager::new(),
                },
            ),
        }
    }

    /// Starts the application at `now`: every startup system runs, in the order
    /// of registration, each once, on the state that the one before it left,
    /// and leaves the schedule for good. The clock of every other system starts
    /// at `now`.
    pub fn start<W, R, T, C, G>(&mut self, app: &mut App<W, Rn, P, R, T, C, G>, now: u64) where
        F: FnMut(&mut App<W, Rn, P, R, T, C, G>, u64),

        requires
            old(self).accepts(|app: App<W, Rn, P, R, T, C, G>| app.wf()),
            old(app).wf(),
            forall|i: int, state: &mut App<W, Rn, P, R, T, C, G>, elapsed: u64|
                0 <= i < old(self).systems.len() && mut_ref_current(state).wf()
                    && #[trigger] call_ensures(old(self).systems[i].update, (state, elapsed), ())
                    ==> mut_ref_future(state).wf(),
        ensures
            final(app).wf(),
            final(self).accepts(|app: App<W, Rn, P, R, T, C, G>| app.wf()),
            forall|i: int, state: &mut App<W, Rn, P, R, T, C, G>, elapsed: u64|
                0 <= i < final(self).systems.len() && mut_ref_current(state).wf()
                    && #[trigger] call_ensures(final(self).systems[i].update, (state, elapsed), ())
                    ==> mut_ref_future(state).wf(),
            final(self).systems@ == after_startup(old(self).systems@, now),
            final(self).renderer == old(self).renderer,
            final(self).physics == old(self).physics,
            exists|states: Seq<App<W, Rn, P, R, T, C, G>>|
                {
                    &&& states.len() == old(self).systems.len() + 1
                    &&& states[0] == *old(app)
                    &&& states[old(self).systems.len() as int] == *final(app)
                    &&& forall|i: int|
                        #![trigger old(self).systems[i]]
                        0 <= i < old(self).systems.len() ==> if old(self).systems[i].system_type
                            == SystemType::Startup {
                            exists|state: &mut App<W, Rn, P, R, T, C, G>|
                                {
                                    &&& mut_ref_current(state) == states[i]
                                    &&& mut_ref_future(state) == states[i + 1]
                                    &&& #[trigger] call_ensures(
                                        old(self).systems[i].update,
                                        (state, 0u64),
                                        (),
                                    )
                                }
                        } else {
                            states[i + 1] == states[i]
                        }
                },
    {
        self.startup_pass(app, now, Ghost(|app: App<W, Rn, P, R, T, C, G>| app.wf()));
    }

    /// One frame at `now`. The systems that are due run, in the order of
    /// registration, each once, on the state that the one before it left; then
    /// the asset store works its mailbox off, and the frame is counted. The
    /// answer says what there is to render.
    pub fn tick<W, R, T, C, G>(&mut self, app: &mut App<W, Rn, P, R, T, C, G>, now: u64) -> (action:
        FrameAction) where F: FnMut(&mut App<W, Rn, P, R, T, C, G>, u64)
        requires
            old(self).accepts(|app: App<W, Rn, P, R, T, C, G>| app.wf()),
            old(app).wf(),
            forall|i: int, state: &mut App<W, Rn, P, R, T, C, G>, elapsed: u64|
                0 <= i < old(self).systems.len() && mut_ref_current(state).wf()
                    && #[trigger] call_ensures(old(self).systems[i].update, (state, elapsed), ())
                    ==> mut_ref_future(state).wf(),
        ensures
            final(app).wf(),
            final(self).accepts(|app: App<W, Rn, P, R, T, C, G>| app.wf()),
            forall|i: int, state: &mut App<W, Rn, P, R, T, C, G>, elapsed: u64|
                0 <= i < final(self).systems.len() && mut_ref_current(state).wf()
                    && #[trigger] call_ensures(final(self).systems[i].update, (state, elapsed), ())
                    ==> mut_ref_future(state).wf(),
            final(self).systems@ == after_tick(old(self).systems@, now),
            final(self).renderer == old(self).renderer,
            final(self).physics == old(self).physics,
            action == frame_action(final(app).scenes.current_scene()),
            exists|states: Seq<App<W, Rn, P, R, T, C, G>>|
                {
                    &&& states.len() == old(self).systems.len() + 1
                    &&& states[0] == *old(app)
                    &&& forall|i: int|
                        #![trigger old(self).systems[i]]
                        0 <= i < old(self).systems.len() ==> if due_on_tick(
                            old(self).systems[i].system_type,
                            old(self).systems[i].last_run,
                            now,
                        ) {
                            exists|state: &mut App<W, Rn, P, R, T, C, G>|
                                {
                                    &&& mut_ref_current(state) == states[i]
                                    &&& mut_ref_future(state) == states[i + 1]
                                    &&& #[trigger] call_ensures(
                                        old(self).systems[i].update,
                                        (state, elapsed_between(old(self).systems[i].last_run, now)),
                                        (),
                                    )
                                }
                        } else {
                            states[i + 1] == states[i]
                        }
                    &&& after_systems(states[old(self).systems.len() as int], now, *final(app))
                },
    {
        self.tick_pass(app, now, Ghost(|app: App<W, Rn, P, R, T, C, G>| app.wf()));
        app.context.assets.update_ref_counts();
        app.context.perf_stats.tick(now);
        match app.scenes.current() {
            None => FrameAction::NoScene,
            Some(scene) => if scene.camera.is_some() {
                FrameAction::Render
            } else {
                FrameAction::NoCamera
            },
        }
    }

    /// Hands `event` to the systems that wait for it: they run in the order of
    /// registration, each once, on the state that the one before it left and
    /// with the time since its last run, and their clocks are put at `now`.
    pub fn dispatch_event<W, R, T, C, G>(
        &mut self,
        event: EventCallbackType,
        app: &mut App<W, Rn, P, R, T, C, G>,
        now: u64,
    ) where F: FnMut(&mut App<W, Rn, P, R, T, C, G>, u64)
        requires
            old(self).accepts(|app: App<W, Rn, P, R, T, C, G>| app.wf()),
            old(app).wf(),
            forall|i: int, state: &mut App<W, Rn, P, R, T, C, G>, elapsed: u64|
                0 <= i < old(self).systems.len() && mut_ref_current(state).wf()
                    && #[trigger] call_ensures(old(self).systems[i].update, (state, elapsed), ())
                    ==> mut_ref_future(state).wf(),
        ensures
            final(app).wf(),
            final(self).accepts(|app: App<W, Rn, P, R, T, C, G>| app.wf()),
            forall|i: int, state: &mut App<W, Rn, P, R, T, C, G>, elapsed: u64|
                0 <= i < final(self).systems.len() && mut_ref_current(state).wf()
                    && #[trigger] call_ensures(final(self).systems[i].update, (state, elapsed), ())
                    ==> mut_ref_future(state).wf(),
            final(self).systems@ == after_event(old(self).systems@, event, now),
            final(self).renderer == old(self).renderer,
            final(self).physics == old(self).physics,
            exists|states: Seq<App<W, Rn, P, R, T, C, G>>|
                {
                    &&& states.len() == old(self).systems.len() + 1
                    &&& states[0] == *old(app)
                    &&& states[old(self).systems.len() as int] == *final(app)
                    &&& forall|i: int|
                        #![trigger old(self).systems[i]]
                        0 <= i < old(self).systems.len() ==> if old(self).systems[i].system_type
                            == SystemType::EventCallback(event) {
                            exists|state: &mut App<W, Rn, P, R, T, C, G>|
                                {
                                    &&& mut_ref_current(state) == states[i]
                                    &&& mut_ref_future(state) == states[i + 1]
                                    &&& #[trigger] call_ensures(
                                        old(self).systems[i].update,
                                        (state, elapsed_between(old(self).systems[i].last_run, now)),
                                        (),
                                    )
                                }
                        } else {
                            states[i + 1] == states[i]
                        }
                },
    {
        self.event_pass(event, app, now, Ghost(|app: App<W, Rn, P, R, T, C, G>| app.wf()));
    }

    /// Shuts the application down at `now`: the systems that wait for the
    /// shutdown run as for any other event, and then every asset is dropped.
    pub fn shutdown<W, R, T, C, G>(&mut self, app: &mut App<W, Rn, P, R, T, C, G>, now: u64) where
        F: FnMut(&mut App<W, Rn, P, R, T, C, G>, u64),

        requires
            old(self).accepts(|app: App<W, Rn, P, R, T, C, G>| app.wf()),
            old(app).wf(),
            forall|i: int, state: &mut App<W, Rn, P, R, T, C, G>, elapsed: u64|
                0 <= i < old(self).systems.len() && mut_ref_current(state).wf()
                    && #[trigger] call_ensures(old(self).systems[i].update, (state, elapsed), ())
                    ==> mut_ref_future(state).wf(),
        ensures
            final(app).wf(),
            final(self).accepts(|app: App<W, Rn, P, R, T, C, G>| app.wf()),
            forall|i: int, state: &mut App<W, Rn, P, R, T, C, G>, elapsed: u64|
                0 <= i < final(self).systems.len() && mut_ref_current(state).wf()
                    && #[trigger] call_ensures(final(self).systems[i].update, (state, elapsed), ())
                    ==> mut_ref_future(state).wf(),
            final(self).systems@ == after_event(
                old(self).systems@,
                EventCallbackType::ShutDown,
                now,
            ),
            final(self).renderer == old(self).renderer,
            final(self).physics == old(self).physics,
            final(app).context.assets.assets() == Map::<u64, Counted<T>>::empty(),
            final(app).context.assets.pending() == Seq::<RefCountMessage>::empty(),
            exists|states: Seq<App<W, Rn, P, R, T, C, G>>|
                {
                    &&& states.len() == old(self).systems.len() + 1
                    &&& states[0] == *old(app)
                    &&& forall|i: int|
                        #![trigger old(self).systems[i]]
                        0 <= i < old(self).systems.len() ==> if old(self).systems[i].system_type
                            == SystemType::EventCallback(EventCallbackType::ShutDown) {
                            exists|state: &mut App<W, Rn, P, R, T, C, G>|
                                {
                                    &&& mut_ref_current(state) == states[i]
                                    &&& mut_ref_future(state) == states[i + 1]
                                    &&& #[trigger] call_ensures(
                                        old(self).systems[i].update,
                                        (state, elapsed_between(old(self).systems[i].last_run, now)),
                                        (),
                                    )
                                }
                        } else {
                            states[i + 1] == states[i]
                        }
                    &&& same_but_assets(states[old(self).systems.len() as int], *final(app))
                    &&& final(app).context.assets.next_id() == states[old(self).systems.len() as int].context.assets.next_id()
                },
    {
        self.event_pass(
            EventCallbackType::ShutDown,
            app,
            now,
            Ghost(|app: App<W, Rn, P, R, T, C, G>| app.wf()),
        );
        app.context.assets.drop_all();
    }
}

/// `after` is `before` but for the asset store.
pub open spec fn same_but_assets<W, Rn, P, R, T, C, G>(
    before: App<W, Rn, P, R, T, C, G>,
    after: App<W, Rn, P, R, T, C, G>,
) -> bool {
    &&& after.scenes == before.scenes
    &&& after.context.window == before.context.window
    &&& after.context.renderer == before.context.renderer
    &&& after.context.input == before.context.input
    &&& after.context.resources == before.context.resources
    &&& after.context.physics == before.context.physics
    &&& after.context.perf_stats == before.context.perf_stats
}

/// `after` is what the end of a tick at `now` makes of `before`, the state that
/// the systems left: the asset store has worked its mailbox off, the frame is
/// counted, and nothing else has changed.
pub open spec fn after_systems<W, Rn, P, R, T, C, G>(
    before: App<W, Rn, P, R, T, C, G>,
    now: u64,
    after: App<W, Rn, P, R, T, C, G>,
) -> bool {
    &&& after.scenes == before.scenes
    &&& after.context.window == before.context.window
    &&& after.context.renderer == before.context.renderer
    &&& after.context.input == before.context.input
    &&& after.context.resources == before.context.resources
    &&& after.context.physics == before.context.physics
    &&& after.context.perf_stats == before.context.perf_stats.ticked(now)
    &&& after.context.assets.assets() == apply_messages(
        before.context.assets.assets(),
        before.context.assets.pending(),
    )
    &&& after.context.assets.pending() == Seq::<RefCountMessage>::empty()
    &&& after.context.assets.next_id() == before.context.assets.next_id()
}

} // verus!

verus! {

/// Once the application has started, no startup system is on the schedule: a
/// startup system runs at the start and never again.
pub proof fn startup_systems_are_gone<F>(systems: Seq<System<F>>, now: u64)
    ensures
        forall|i: int|
            0 <= i < after_startup(systems, now).len() ==> (#[trigger] after_startup(
                systems,
                now,
            )[i]).system_type != SystemType::Startup,
    decreases systems.len(),
{
    if systems.len() > 0 {
        startup_systems_are_gone(systems.drop_last(), now);
    }
}

/// The start keeps every other system, in the order of registration: the
/// schedule gets no longer, and each system on it was registered.
pub proof fn start_keeps_registered<F>(systems: Seq<System<F>>, now: u64)
    ensures
        after_startup(systems, now).len() <= systems.len(),
        forall|i: int|
            0 <= i < after_startup(systems, now).len() ==> is_registered(
                systems,
                (#[trigger] after_startup(systems, now)[i]).uuid,
            ),
    decreases systems.len(),
{
    if systems.len() > 0 {
        let front = systems.drop_last();
        start_keeps_registered(front, now);
        assert forall|i: int| 0 <= i < after_startup(systems, now).len() implies is_registered(
            systems,
            (#[trigger] after_startup(systems, now)[i]).uuid,
        ) by {
            if i < after_startup(front, now).len() {
                let j = choose|j: int|
                    0 <= j < front.len() && #[trigger] front[j].uuid == after_startup(front, now)[i].uuid;
                assert(systems[j].uuid == after_startup(systems, now)[i].uuid);
            } else {
                assert(systems[systems.len() - 1].uuid == after_startup(systems, now)[i].uuid);
            }
        }
    }
}

/// Without the start a startup system never runs: it is not due on any tick,
/// whenever it ran last.
pub proof fn startup_is_never_due(last_run: u64, now: u64)
    ensures
        !due_on_tick(SystemType::Startup, last_run, now),
{
}

/// An event callback is not due on any tick either.
pub proof fn event_callback_is_never_due(event: EventCallbackType, last_run: u64, now: u64)
    ensures
        !due_on_tick(SystemType::EventCallback(event), last_run, now),
{
}

/// A timed system with an interval that ran at `ran_at` rests until the
/// interval is over.
pub proof fn timed_system_rests(interval: u64, ran_at: u64, now: u64)
    requires
        interval > 0,
        now < ran_at + interval,
    ensures
        !due_on_tick(SystemType::Timed(interval), ran_at, now),
{
}

/// A tick does not catch up: however late it comes, a timed system with an
/// interval is not due again at the time of the tick that ran it.
pub proof fn tick_runs_timed_once<F>(systems: Seq<System<F>>, now: u64, i: int, interval: u64)
    requires
        0 <= i < systems.len(),
        systems[i].system_type == SystemType::Timed(interval),
        interval > 0,
    ensures
        !due_on_tick(
            after_tick(systems, now)[i].system_type,
            after_tick(systems, now)[i].last_run,
            now,
        ),
{
}

/// Registration is idempotent by id: once a system is on the schedule, its id
/// is registered.
pub proof fn registered_after_push<F>(systems: Seq<System<F>>, system: System<F>)
    ensures
        is_registered(systems.push(system), system.uuid),
{
    assert(systems.push(system)[systems.len() as int].uuid == system.uuid);
}

} // verus!

verus! {

/// The start changes no callback: each system that stays on the schedule has the
/// callback with which it was registered.
pub proof fn start_keeps_callbacks<F>(systems: Seq<System<F>>, now: u64)
    ensures
        callbacks_from(after_startup(systems, now), systems),
    decreases systems.len(),
{
    if systems.len() > 0 {
        let front = systems.drop_last();
        let after = after_startup(systems, now);
        start_keeps_callbacks(front, now);
        assert forall|i: int| 0 <= i < after.len() implies exists|j: int|
            0 <= j < systems.len() && (#[trigger] after[i]).update == (#[trigger] systems[j]).update by {
            if i < after_startup(front, now).len() {
                let j = choose|j: int|
                    0 <= j < front.len() && (#[trigger] after_startup(front, now)[i]).update == (
                    #[trigger] front[j]).update;
                assert(after[i].update == systems[j].update);
            } else {
                assert(after[i].update == systems[systems.len() - 1].update);
            }
        }
    }
}

/// A tick changes no callback and no place on the schedule.
pub proof fn tick_keeps_callbacks<F>(systems: Seq<System<F>>, now: u64)
    ensures
        after_tick(systems, now).len() == systems.len(),
        forall|i: int|
            0 <= i < systems.len() ==> (#[trigger] after_tick(systems, now)[i]).update
                == systems[i].update,
        callbacks_from(after_tick(systems, now), systems),
{
    assert forall|i: int| 0 <= i < after_tick(systems, now).len() implies exists|j: int|
        0 <= j < systems.len() && (#[trigger] after_tick(systems, now)[i]).update == (
        #[trigger] systems[j]).update by {
        assert(after_tick(systems, now)[i].update == systems[i].update);
    }
}

/// The dispatch of an event changes no callback and no place on the schedule.
pub proof fn event_keeps_callbacks<F>(systems: Seq<System<F>>, event: EventCallbackType, now: u64)
    ensures
        after_event(systems, event, now).len() == systems.len(),
        forall|i: int|
            0 <= i < systems.len() ==> (#[trigger] after_event(systems, event, now)[i]).update
                == systems[i].update,
        callbacks_from(after_event(systems, event, now), systems),
{
    assert forall|i: int| 0 <= i < after_event(systems, event, now).len() implies exists|j: int|
        0 <= j < systems.len() && (#[trigger] after_event(systems, event, now)[i]).update == (
        #[trigger] systems[j]).update by {
        assert(after_event(systems, event, now)[i].update == systems[i].update);
    }
}

/// What holds of every callback of a schedule holds of every callback that a
/// later schedule has from it: the later systems accept the states that meet
/// `inv`, and keep `inv` if the earlier ones do.
pub proof fn callbacks_carry_over<A, F: FnMut(&mut A, u64)>(
    before: Seq<System<F>>,
    after: Seq<System<F>>,
    inv: spec_fn(A) -> bool,
)
    requires
        callbacks_from(after, before),
    ensures
        systems_accept(before, inv) ==> systems_accept(after, inv),
        (forall|i: int, state: &mut A, elapsed: u64|
            0 <= i < before.len() && inv(mut_ref_current(state)) && #[trigger] call_ensures(
                before[i].update,
                (state, elapsed),
                (),
            ) ==> inv(mut_ref_future(state))) ==> (forall|i: int, state: &mut A, elapsed: u64|
            0 <= i < after.len() && inv(mut_ref_current(state)) && #[trigger] call_ensures(
                after[i].update,
                (state, elapsed),
                (),
            ) ==> inv(mut_ref_future(state))),
{
    if systems_accept(before, inv) {
        assert forall|i: int, app: &mut A, elapsed: u64|
            0 <= i < after.len() && inv(mut_ref_current(app)) implies #[trigger] call_requires(
            after[i].update,
            (app, elapsed),
        ) by {
            let j = choose|j: int|
                0 <= j < before.len() && (#[trigger] after[i]).update == (#[trigger] before[j]).update;
            assert(call_requires(before[j].update, (app, elapsed)));
        }
    }
    if forall|i: int, state: &mut A, elapsed: u64|
        0 <= i < before.len() && inv(mut_ref_current(state)) && #[trigger] call_ensures(
            before[i].update,
            (state, elapsed),
            (),
        ) ==> inv(mut_ref_future(state)) {
        assert forall|i: int, state: &mut A, elapsed: u64|
            0 <= i < after.len() && inv(mut_ref_current(state)) && #[trigger] call_ensures(
                after[i].update,
                (state, elapsed),
                (),
            ) implies inv(mut_ref_future(state)) by {
            let j = choose|j: int|
                0 <= j < before.len() && (#[trigger] after[i]).update == (#[trigger] before[j]).update;
            assert(call_ensures(before[j].update, (state, elapsed), ()));
        }
    }
}

/// An event callback gets the time since its own last run: after a dispatch at
/// `first`, a dispatch at `second` measures from `first`.
pub proof fn dispatch_measures_from_last_dispatch<F>(
    systems: Seq<System<F>>,
    event: EventCallbackType,
    first: u64,
    second: u64,
    i: int,
)
    requires
        0 <= i < systems.len(),
        systems[i].system_type == SystemType::EventCallback(event),
        first <= second,
    ensures
        elapsed_between(after_event(systems, event, first)[i].last_run, second) == second - first,
        after_event(after_event(systems, event, first), event, second)[i].last_run == second,
{
}

} // verus!

verus! {

/// What the host does with a schedule once it is started.
pub enum ScheduleStep {
    /// A tick at this time.
    Tick(u64),
    /// The dispatch of this event at this time.
    Event(EventCallbackType, u64),
}

/// The schedule after the steps, taken in their order.
pub open spec fn after_steps<F>(systems: Seq<System<F>>, steps: Seq<ScheduleStep>) -> Seq<System<F>>
    decreases steps.len(),
{
    if steps.len() == 0 {
        systems
    } else {
        match steps.last() {
            ScheduleStep::Tick(now) => after_tick(after_steps(systems, steps.drop_last()), now),
            ScheduleStep::Event(event, now) => after_event(
                after_steps(systems, steps.drop_last()),
                event,
                now,
            ),
        }
    }
}

/// Whether a step runs a system of this policy that ran last at `last_run`.
pub open spec fn runs_on(step: ScheduleStep, system_type: SystemType, last_run: u64) -> bool {
    match step {
        ScheduleStep::Tick(now) => due_on_tick(system_type, last_run, now),
        ScheduleStep::Event(event, _) => system_type == SystemType::EventCallback(event),
    }
}

/// Ticks and events change nothing of a schedule but the clocks: every system
/// keeps its place, its id, its policy and its callback.
pub proof fn steps_keep_the_schedule<F>(systems: Seq<System<F>>, steps: Seq<ScheduleStep>)
    ensures
        after_steps(systems, steps).len() == systems.len(),
        forall|i: int|
            0 <= i < systems.len() ==> {
                &&& (#[trigger] after_steps(systems, steps)[i]).uuid == systems[i].uuid
                &&& after_steps(systems, steps)[i].system_type == systems[i].system_type
                &&& after_steps(systems, steps)[i].update == systems[i].update
                &&& after_steps(systems, steps)[i].name == systems[i].name
            },
    decreases steps.len(),
{
    if steps.len() > 0 {
        steps_keep_the_schedule(systems, steps.drop_last());
        let before = after_steps(systems, steps.drop_last());
        assert forall|i: int| 0 <= i < systems.len() implies {
            &&& (#[trigger] after_steps(systems, steps)[i]).uuid == systems[i].uuid
            &&& after_steps(systems, steps)[i].system_type == systems[i].system_type
            &&& after_steps(systems, steps)[i].update == systems[i].update
            &&& after_steps(systems, steps)[i].name == systems[i].name
        } by {
            assert(before[i].uuid == systems[i].uuid);
        }
    }
}

/// Without the start a startup system never runs: no tick and no event runs it,
/// however many follow, so its clock stays where it was.
pub proof fn startup_system_waits_for_the_start<F>(
    systems: Seq<System<F>>,
    steps: Seq<ScheduleStep>,
    i: int,
)
    requires
        0 <= i < systems.len(),
        systems[i].system_type == SystemType::Startup,
    ensures
        after_steps(systems, steps)[i] == systems[i],
        forall|step: ScheduleStep, last_run: u64| !runs_on(step, SystemType::Startup, last_run),
    decreases steps.len(),
{
    if steps.len() > 0 {
        steps_keep_the_schedule(systems, steps.drop_last());
        startup_system_waits_for_the_start(systems, steps.drop_last(), i);
    }
}

/// After the start a startup system is gone for good: whatever ticks and events
/// follow, none is on the schedule, so each one has run exactly once, at the
/// start.
pub proof fn no_startup_system_after_the_start<F>(
    systems: Seq<System<F>>,
    start: u64,
    steps: Seq<ScheduleStep>,
)
    ensures
        forall|i: int|
            0 <= i < after_steps(after_startup(systems, start), steps).len() ==> (
            #[trigger] after_steps(after_startup(systems, start), steps)[i]).system_type
                != SystemType::Startup,
{
    let started = after_startup(systems, start);
    startup_systems_are_gone(systems, start);
    steps_keep_the_schedule(started, steps);
    assert forall|i: int| 0 <= i < after_steps(started, steps).len() implies (
    #[trigger] after_steps(started, steps)[i]).system_type != SystemType::Startup by {
        assert(started[i].system_type != SystemType::Startup);
    }
}

/// The start keeps the other systems in the order of their registration: what
/// is left is the registered systems without the startup systems, each with its
/// clock at the start.
pub proof fn start_keeps_the_order<F>(systems: Seq<System<F>>, now: u64)
    ensures
        after_startup(systems, now) == systems.filter(
            |system: System<F>| system.system_type != SystemType::Startup,
        ).map_values(|system: System<F>| system.ran_at(now)),
    decreases systems.len(),
{
    reveal(Seq::filter);
    let stays = |system: System<F>| system.system_type != SystemType::Startup;
    let reset = |system: System<F>| system.ran_at(now);
    if systems.len() == 0 {
        assert(systems.filter(stays).map_values(reset) =~= after_startup(systems, now));
    } else {
        start_keeps_the_order(systems.drop_last(), now);
        let front = systems.drop_last().filter(stays);
        if stays(systems.last()) {
            assert(front.push(systems.last()).map_values(reset) =~= front.map_values(reset).push(
                reset(systems.last()),
            ));
        }
        assert(systems.filter(stays).map_values(reset) =~= after_startup(systems, now));
    }
}

} // verus!

verus! {

/// The number of update systems among `systems`.
pub open spec fn updates_in<F>(systems: Seq<System<F>>) -> nat
    decreases systems.len(),
{
    if systems.len() == 0 {
        0
    } else {
        updates_in(systems.drop_last()) + if systems.last().system_type == SystemType::Update {
            1nat
        } else {
            0nat
        }
    }
}

/// The schedule after ticks at `times`, taken in their order.
pub open spec fn after_ticks<F>(systems: Seq<System<F>>, times: Seq<u64>) -> Seq<System<F>>
    decreases times.len(),
{
    if times.len() == 0 {
        systems
    } else {
        after_tick(after_ticks(systems, times.drop_last()), times.last())
    }
}

/// Ticks change nothing of a schedule but the clocks.
pub proof fn ticks_keep_the_schedule<F>(systems: Seq<System<F>>, times: Seq<u64>)
    ensures
        after_ticks(systems, times).len() == systems.len(),
        forall|i: int|
            0 <= i < systems.len() ==> {
                &&& (#[trigger] after_ticks(systems, times)[i]).system_type == systems[i].system_type
                &&& after_ticks(systems, times)[i].update == systems[i].update
                &&& after_ticks(systems, times)[i].uuid == systems[i].uuid
            },
        updates_in(after_ticks(systems, times)) == updates_in(systems),
    decreases times.len(),
{
    if times.len() > 0 {
        ticks_keep_the_schedule(systems, times.drop_last());
        let before = after_ticks(systems, times.drop_last());
        assert forall|i: int| 0 <= i < systems.len() implies {
            &&& (#[trigger] after_ticks(systems, times)[i]).system_type == systems[i].system_type
            &&& after_ticks(systems, times)[i].update == systems[i].update
            &&& after_ticks(systems, times)[i].uuid == systems[i].uuid
        } by {
            assert(before[i].uuid == systems[i].uuid);
        }
        same_policies_same_updates(before, after_ticks(systems, times));
    }
}

/// Schedules with the same policies in the same places have as many update
/// systems.
pub proof fn same_policies_same_updates<F>(a: Seq<System<F>>, b: Seq<System<F>>)
    requires
        a.len() == b.len(),
        forall|i: int| 0 <= i < a.len() ==> (#[trigger] a[i]).system_type == b[i].system_type,
    ensures
        updates_in(a) == updates_in(b),
    decreases a.len(),
{
    if a.len() > 0 {
        assert(a[a.len() - 1].system_type == b[a.len() - 1].system_type);
        assert forall|i: int| 0 <= i < a.drop_last().len() implies (#[trigger] a.drop_last()[i]).system_type
            == b.drop_last()[i].system_type by {
            assert(a[i].system_type == b[i].system_type);
        }
        same_policies_same_updates(a.drop_last(), b.drop_last());
    }
}

/// One tick, counted. Where the callback of every update system adds one to a
/// counter that the state holds, and no other callback changes the counter, the
/// systems of a tick add to it the number of update systems on the schedule:
/// each of them runs once, no more and no less. `states` are the states that
/// the tick went through, one per system, as the tick's contract gives them.
pub proof fn tick_counts_updates<A, F: FnMut(&mut A, u64)>(
    systems: Seq<System<F>>,
    now: u64,
    states: Seq<A>,
    counter: spec_fn(A) -> int,
    i: int,
)
    requires
        states.len() == systems.len() + 1,
        0 <= i <= systems.len(),
        forall|j: int, state: &mut A, elapsed: u64|
            0 <= j < systems.len() && #[trigger] call_ensures(systems[j].update, (state, elapsed), ())
                ==> counter(mut_ref_future(state)) == counter(mut_ref_current(state)) + (
            if systems[j].system_type == SystemType::Update {
                1int
            } else {
                0int
            }),
        forall|j: int|
            #![trigger systems[j]]
            0 <= j < systems.len() ==> if due_on_tick(systems[j].system_type, systems[j].last_run, now) {
                exists|state: &mut A|
                    {
                        &&& mut_ref_current(state) == states[j]
                        &&& mut_ref_future(state) == states[j + 1]
                        &&& #[trigger] call_ensures(
                            systems[j].update,
                            (state, elapsed_between(systems[j].last_run, now)),
                            (),
                        )
                    }
            } else {
                states[j + 1] == states[j]
            },
    ensures
        counter(states[i]) == counter(states[0]) + updates_in(systems.take(i)),
    decreases i,
{
    if i == 0 {
        assert(systems.take(0) =~= Seq::<System<F>>::empty());
    } else {
        let j = i - 1;
        tick_counts_updates(systems, now, states, counter, j);
        assert(systems.take(i).drop_last() =~= systems.take(j));
        assert(systems.take(i).last() == systems[j]);
        if due_on_tick(systems[j].system_type, systems[j].last_run, now) {
            let state = choose|state: &mut A|
                {
                    &&& mut_ref_current(state) == states[j]
                    &&& mut_ref_future(state) == states[j + 1]
                    &&& #[trigger] call_ensures(
                        systems[j].update,
                        (state, elapsed_between(systems[j].last_run, now)),
                        (),
                    )
                };
            assert(counter(mut_ref_future(state)) == counter(mut_ref_current(state)) + (
            if systems[j].system_type == SystemType::Update {
                1int
            } else {
                0int
            }));
        } else {
            assert(systems[j].system_type != SystemType::Update);
        }
    }
}

/// Whether `t` numbers one of the ticks at `times`.
pub open spec fn is_tick(times: Seq<u64>, t: int) -> bool {
    0 <= t < times.len()
}

/// A run of ticks, counted. `apps[k]` is the state before tick `k` at
/// `times[k]`, and `apps[k + 1]` the state after it. Where every tick is what
/// its contract says, the callback of every update system adds one to the
/// counter and nothing else changes it, the counter after `k` ticks has grown by
/// `k` times the number of update systems: with one such system it counts the
/// ticks.
pub proof fn ticks_count_updates<A, F: FnMut(&mut A, u64)>(
    systems: Seq<System<F>>,
    times: Seq<u64>,
    apps: Seq<A>,
    counter: spec_fn(A) -> int,
    k: int,
)
    requires
        apps.len() == times.len() + 1,
        0 <= k <= times.len(),
        forall|j: int, state: &mut A, elapsed: u64|
            0 <= j < systems.len() && #[trigger] call_ensures(systems[j].update, (state, elapsed), ())
                ==> counter(mut_ref_future(state)) == counter(mut_ref_current(state)) + (
            if systems[j].system_type == SystemType::Update {
                1int
            } else {
                0int
            }),
        forall|t: int|
            #![trigger is_tick(times, t)]
            is_tick(times, t) ==> exists|states: Seq<A>|
                {
                    &&& states.len() == systems.len() + 1
                    &&& states[0] == apps[t]
                    &&& counter(apps[t + 1]) == counter(#[trigger] states[systems.len() as int])
                    &&& forall|j: int|
                        #![trigger after_ticks(systems, times.take(t))[j]]
                        0 <= j < systems.len() ==> if due_on_tick(
                            after_ticks(systems, times.take(t))[j].system_type,
                            after_ticks(systems, times.take(t))[j].last_run,
                            times[t],
                        ) {
                            exists|state: &mut A|
                                {
                                    &&& mut_ref_current(state) == states[j]
                                    &&& mut_ref_future(state) == states[j + 1]
                                    &&& #[trigger] call_ensures(
                                        after_ticks(systems, times.take(t))[j].update,
                                        (
                                            state,
                                            elapsed_between(
                                                after_ticks(systems, times.take(t))[j].last_run,
                                                times[t],
                                            ),
                                        ),
                                        (),
                                    )
                                }
                        } else {
                            states[j + 1] == states[j]
                        }
                },
    ensures
        counter(apps[k]) == counter(apps[0]) + k * updates_in(systems),
    decreases k,
{
    if k > 0 {
        let n = k - 1;
        ticks_count_updates(systems, times, apps, counter, n);
        let schedule = after_ticks(systems, times.take(n));
        ticks_keep_the_schedule(systems, times.take(n));
        assert(is_tick(times, n));
        let states = choose|states: Seq<A>|
            {
                &&& states.len() == systems.len() + 1
                &&& states[0] == apps[n]
                &&& counter(apps[n + 1]) == counter(#[trigger] states[systems.len() as int])
                &&& forall|j: int|
                    #![trigger after_ticks(systems, times.take(n))[j]]
                    0 <= j < systems.len() ==> if due_on_tick(
                        after_ticks(systems, times.take(n))[j].system_type,
                        after_ticks(systems, times.take(n))[j].last_run,
                        times[n],
                    ) {
                        exists|state: &mut A|
                            {
                                &&& mut_ref_current(state) == states[j]
                                &&& mut_ref_future(state) == states[j + 1]
                                &&& #[trigger] call_ensures(
                                    after_ticks(systems, times.take(n))[j].update,
                                    (
                                        state,
                                        elapsed_between(
                                            after_ticks(systems, times.take(n))[j].last_run,
                                            times[n],
                                        ),
                                    ),
                                    (),
                                )
                            }
                    } else {
                        states[j + 1] == states[j]
                    }
            };
        assert forall|j: int, state: &mut A, elapsed: u64|
            0 <= j < schedule.len() && #[trigger] call_ensures(
                schedule[j].update,
                (state, elapsed),
                (),
            ) implies counter(mut_ref_future(state)) == counter(mut_ref_current(state)) + (
        if schedule[j].system_type == SystemType::Update {
            1int
        } else {
            0int
        }) by {
            assert(schedule[j].update == systems[j].update);
            assert(call_ensures(systems[j].update, (state, elapsed), ()));
        }
        tick_counts_updates(schedule, times[n], states, counter, systems.len() as int);
        assert(schedule.take(systems.len() as int) =~= schedule);
        assert((n + 1) * updates_in(systems) == n * updates_in(systems) + updates_in(systems))
            by (nonlinear_arith);
    } else {
        assert(0 * updates_in(systems) == 0) by (nonlinear_arith);
    }
}

} // verus!
