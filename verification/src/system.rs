//! Systems: callbacks on the application state, each with the policy that says
//! when it runs.
//!
//! Times are nanoseconds on the host's monotonic clock. The host hands the
//! reading in with every call, so nothing here reads a clock.

use vstd::prelude::*;

verus! {

/// The host events that a system can wait for.
#[derive(Clone, Copy, Debug, PartialEq, Eq, Structural)]
pub enum EventCallbackType {
    WindowResize,
    ShutDown,
}

/// When a system runs.
#[derive(Clone, Copy, Debug, PartialEq, Eq, Structural)]
pub enum SystemType {
    /// On every tick.
    Update,
    /// Once, before the first tick.
    Startup,
    /// On a tick, once at least this many nanoseconds have passed since its
    /// last run.
    Timed(u64),
    /// Whenever the host raises the event; never on a tick.
    EventCallback(EventCallbackType),
}

/// The nanoseconds from `last_run` to `now`; zero if the clock seems to have
/// gone backwards.
pub open spec fn elapsed_between(last_run: u64, now: u64) -> u64 {
    if now >= last_run {
        (now - last_run) as u64
    } else {
        0
    }
}

/// Whether a system of this policy that last ran at `last_run` runs on a tick at
/// `now`.
pub open spec fn due_on_tick(system_type: SystemType, last_run: u64, now: u64) -> bool {
    match system_type {
        SystemType::Update => true,
        SystemType::Timed(interval) => elapsed_between(last_run, now) >= interval,
        SystemType::Startup => false,
        SystemType::EventCallback(_) => false,
    }
}

/// Whether `id` has the version and variant bits of a random (version 4) UUID.
pub open spec fn is_random_uuid(id: u128) -> bool {
    id & 0x0000_0000_0000_f000_c000_0000_0000_0000 == 0x0000_0000_0000_4000_8000_0000_0000_0000
}

/// `uuid::Uuid::new_v4`, as the 128 bits of `Uuid::as_u128`: a random id. Only
/// its version and variant bits are fixed, to version 4 of the RFC variant.
#[verifier::external_body]
fn random_uuid() -> (id: u128)
    ensures
        is_random_uuid(id),
{
    uuid::Uuid::new_v4().as_u128()
}

/// A callback with its name, its policy and the time of its last run.
pub struct System<F> {
    pub name: String,
    pub update: F,
    /// The id by which the schedule tells systems apart.
    pub uuid: u128,
    pub system_type: SystemType,
    /// The time of the last run; before the first one, the time of the start.
    pub last_run: u64,
    /// The scene that the system belongs to, if it was given one.
    pub scene: Option<String>,
}

impl<F> System<F> {
    /// The system with its last run put at `now`.
    pub open spec fn ran_at(self, now: u64) -> Self {
        System {
            name: self.name,
            update: self.update,
            uuid: self.uuid,
            system_type: self.system_type,
            last_run: now,
            scene: self.scene,
        }
    }

    fn with_policy(name: String, scene: Option<String>, run: F, system_type: SystemType) -> (system:
        Self)
        ensures
            system.name == name,
            system.update == run,
            is_random_uuid(system.uuid),
            system.system_type == system_type,
            system.last_run == 0,
            system.scene == scene,
    {
        System { name, update: run, uuid: random_uuid(), system_type, last_run: 0, scene }
    }

    /// A system that runs once, before the first tick. Its id is random.
    pub fn startup(name: String, run: F) -> (system: Self)
        ensures
            system.name == name,
            system.update == run,
            is_random_uuid(system.uuid),
            system.system_type == SystemType::Startup,
            system.last_run == 0,
            system.scene is None,
    {
        Self::with_policy(name, None, run, SystemType::Startup)
    }

    /// A system that runs whenever the host raises `event_type`. Its id is
    /// random.
    pub fn event_callback(name: String, run: F, event_type: EventCallbackType) -> (system: Self)
        ensures
            system.name == name,
            system.update == run,
            is_random_uuid(system.uuid),
            system.system_type == SystemType::EventCallback(event_type),
            system.last_run == 0,
            system.scene is None,
    {
        Self::with_policy(name, None, run, SystemType::EventCallback(event_type))
    }

    /// A system that runs on a tick once `duration` nanoseconds have passed since
    /// its last run. Its id is random.
    pub fn timed(name: String, scene: Option<String>, run: F, duration: u64) -> (system: Self)
        ensures
            system.name == name,
            system.update == run,
            is_random_uuid(system.uuid),
            system.system_type == SystemType::Timed(duration),
            system.last_run == 0,
            system.scene == scene,
    {
        Self::with_policy(name, scene, run, SystemType::Timed(duration))
    }

    /// A system that runs on every tick. Its id is random.
    pub fn update(name: String, scene: Option<String>, run: F) -> (system: Self)
        ensures
            system.name == name,
            system.update == run,
            is_random_uuid(system.uuid),
            system.system_type == SystemType::Update,
            system.last_run == 0,
            system.scene == scene,
    {
        Self::with_policy(name, scene, run, SystemType::Update)
    }

    /// The nanoseconds since the last run of the system.
    pub fn elapsed(&self, now: u64) -> (elapsed: u64)
        ensures
            elapsed == elapsed_between(self.last_run, now),
    {
        if now >= self.last_run {
            now - self.last_run
        } else {
            0
        }
    }

    /// Whether the system runs on a tick at `now`.
    pub fn is_due(&self, now: u64) -> (due: bool)
        ensures
            due == due_on_tick(self.system_type, self.last_run, now),
    {
        match self.system_type {
            SystemType::Update => true,
            SystemType::Timed(interval) => self.elapsed(now) >= interval,
            SystemType::Startup => false,
            SystemType::EventCallback(_) => false,
        }
    }
}

} // verus!
