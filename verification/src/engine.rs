//! The engine state machine. The engine is either inactive (it holds a
//! topology and configuration, but no live device stream) or active
//! (the same topology, now processed on the real-time thread). All
//! device work is the host's: transitions return the action the host
//! must perform on the stream, and take the stream's status as an
//! event, so every decision here is checked while no contract claims
//! anything about hardware.

use vstd::prelude::*;

use crate::errors::ConsistencyError;
use crate::errors::DeviceError;
use crate::mutation::MutationError;
use crate::mutation::MutationOutcome;
use crate::mutation::MutationQueue;
use crate::mutation::run_mutations;
use crate::topology::Topology;
use crate::topology::TopologyModel;

verus! {

/// The two engine states. There is no paused state: pausing is
/// modeled by deactivation.
#[derive(Clone, Copy, Debug, PartialEq, Eq, Structural)]
pub enum EngineState {
    Inactive,
    Active,
}

/// What the host must do to the device stream after a transition.
#[derive(Clone, Copy, Debug, PartialEq, Eq, Structural)]
pub enum EngineAction {
    /// Nothing to do.
    Idle,
    /// Open a stream on the given device and start processing.
    OpenStream { device: u64 },
    /// Stop processing and release the stream.
    CloseStream,
}

/// What the host reports about the running stream, once per frame.
#[derive(Clone, Copy, Debug, PartialEq, Eq, Structural)]
pub enum StreamStatus {
    /// The stream runs; optionally a non-fatal graph error to report.
    Running { graph_error: Option<u64> },
    /// The stream stopped unrecoverably (for example, the device was
    /// disconnected); optionally an error code to report.
    Failed { error_code: Option<u64> },
}

/// What one per-frame update decided.
#[derive(Clone, Copy, Debug, PartialEq, Eq, Structural)]
pub enum UpdateOutcome {
    /// The engine continues active; a graph error may need reporting.
    StillActive { graph_error: Option<u64> },
    /// The engine stopped unrecoverably and is now inactive; the
    /// caller may attempt reactivation.
    Deactivated { error_code: Option<u64> },
    /// The engine was not active; nothing was done.
    Idle,
}

/// The mathematical value of an engine.
#[verifier::ext_equal]
pub struct EngineModel {
    pub state: EngineState,
    pub topology: TopologyModel,
    pub sample_rate: u32,
    pub devices: Seq<u64>,
    pub current_device: Option<u64>,
}

impl EngineModel {
    /// Well-formedness: the topology is well-formed, and a current
    /// device is held exactly while active.
    pub open spec fn wf(self) -> bool {
        &&& self.topology.wf()
        &&& (self.state is Active <==> self.current_device is Some)
    }
}

/// The device that an activation request resolves to: the requested
/// one if the host reported it openable, else the first reported
/// device when none was requested; `None` if the request cannot be
/// served.
pub open spec fn chosen_device(devices: Seq<u64>, requested: Option<u64>) -> Option<u64> {
    match requested {
        Some(d) => if devices.contains(d) {
            Some(d)
        } else {
            None
        },
        None => if devices.len() > 0 {
            Some(devices[0])
        } else {
            None
        },
    }
}

/// Why an activation request fails, if it does: exactly when no
/// device can be chosen for it.
pub open spec fn device_refusal(devices: Seq<u64>, requested: Option<u64>) -> Option<DeviceError> {
    match requested {
        Some(d) => if devices.contains(d) {
            None
        } else {
            Some(DeviceError::UnknownDevice)
        },
        None => if devices.len() > 0 {
            None
        } else {
            Some(DeviceError::NoDefaultDevice)
        },
    }
}

/// The deactivation transition: from active, the engine becomes
/// inactive and the host must close the stream; from inactive,
/// nothing changes and nothing is to be done — in particular the
/// stream is never released twice.
pub open spec fn deactivate_transition(e: EngineModel) -> (EngineModel, EngineAction) {
    if e.state is Active {
        (
            EngineModel { state: EngineState::Inactive, current_device: None, ..e },
            EngineAction::CloseStream,
        )
    } else {
        (e, EngineAction::Idle)
    }
}

/// The per-frame update transition: a running stream leaves the
/// engine active; a failed stream moves it to inactive with no close
/// action owed, since the stream is already gone.
pub open spec fn update_transition(e: EngineModel, status: StreamStatus) -> (
    EngineModel,
    UpdateOutcome,
) {
    if !(e.state is Active) {
        (e, UpdateOutcome::Idle)
    } else {
        match status {
            StreamStatus::Running { graph_error } => (
                e,
                UpdateOutcome::StillActive { graph_error },
            ),
            StreamStatus::Failed { error_code } => (
                EngineModel { state: EngineState::Inactive, current_device: None, ..e },
                UpdateOutcome::Deactivated { error_code },
            ),
        }
    }
}

/// Deactivating is idempotent: after one deactivation, a second one
/// changes nothing and asks the host for no stream action, so the
/// stream can never be released twice.
pub proof fn lemma_deactivate_idempotent(e: EngineModel)
    ensures
        deactivate_transition(deactivate_transition(e).0).0 == deactivate_transition(e).0,
        deactivate_transition(deactivate_transition(e).0).1 == EngineAction::Idle,
{
}

/// Deactivating an engine that a failed stream already moved to
/// inactive asks the host for no stream action: the device resources
/// released when the stream failed are not released again.
pub proof fn lemma_deactivate_after_failure_is_idle(e: EngineModel, status: StreamStatus)
    requires
        status is Failed,
    ensures
        deactivate_transition(update_transition(e, status).0).1 == EngineAction::Idle,
{
}

/// The engine: a state, the topology it owns, and the configuration
/// it was built with. `devices` is the host's report of which device
/// identifiers can be opened.
pub struct Engine {
    pub state: EngineState,
    pub topology: Topology,
    pub sample_rate: u32,
    pub devices: Vec<u64>,
    pub current_device: Option<u64>,
}

impl View for Engine {
    type V = EngineModel;

    open spec fn view(&self) -> EngineModel {
        EngineModel {
            state: self.state,
            topology: self.topology@,
            sample_rate: self.sample_rate,
            devices: self.devices@,
            current_device: self.current_device,
        }
    }
}

impl Engine {
    /// Builds an inactive engine around a topology.
    pub fn new(sample_rate: u32, devices: Vec<u64>, topology: Topology) -> (e: Engine)
        requires
            topology@.wf(),
        ensures
            e@.wf(),
            e@.state is Inactive,
            e@.topology == topology@,
            e@.sample_rate == sample_rate,
            e@.devices == devices@,
            e@.current_device is None,
    {
        Engine { state: EngineState::Inactive, topology, sample_rate, devices, current_device: None }
    }

    /// Whether the engine is active.
    pub fn is_active(&self) -> (r: bool)
        ensures
            r == (self@.state is Active),
    {
        match self.state {
            EngineState::Active => true,
            EngineState::Inactive => false,
        }
    }

    /// Whether the host reported `d` as openable.
    fn device_known(&self, d: u64) -> (r: bool)
        ensures
            r == self@.devices.contains(d),
    {
        let mut i: usize = 0;
        while i < self.devices.len()
            invariant
                0 <= i <= self@.devices.len(),
                forall|j: int| 0 <= j < i ==> self@.devices[j] != d,
            decreases self@.devices.len() - i,
        {
            if self.devices[i] == d {
                return true;
            }
            i = i + 1;
        }
        false
    }

    /// Inactive to active. Succeeds if and only if a device can be
    /// chosen for the request — the requested one, or the first
    /// reported one when none is requested. On failure the engine
    /// stays inactive, untouched, and the caller may retry with
    /// another device. The returned identifier is the device the host
    /// must open a stream on.
    pub fn activate(&mut self, requested: Option<u64>) -> (r: Result<u64, DeviceError>)
        requires
            old(self)@.wf(),
            old(self)@.state is Inactive,
        ensures
            final(self)@.wf(),
            final(self)@.topology == old(self)@.topology,
            final(self)@.sample_rate == old(self)@.sample_rate,
            final(self)@.devices == old(self)@.devices,
            match r {
                Ok(d) => {
                    &&& chosen_device(old(self)@.devices, requested) == Some(d)
                    &&& final(self)@.state is Active
                    &&& final(self)@.current_device == Some(d)
                },
                Err(e) => {
                    &&& device_refusal(old(self)@.devices, requested) == Some(e)
                    &&& final(self)@ == old(self)@
                },
            },
    {
        let chosen: u64 = match requested {
            Some(d) => {
                if !self.device_known(d) {
                    return Err(DeviceError::UnknownDevice);
                }
                d
            },
            None => {
                if self.devices.len() == 0 {
                    return Err(DeviceError::NoDefaultDevice);
                }
                self.devices[0]
            },
        };
        self.state = EngineState::Active;
        self.current_device = Some(chosen);
        Ok(chosen)
    }

    /// Active to inactive; from inactive, a no-op. Always succeeds,
    /// keeps the topology intact, and returns the stream action the
    /// host owes — `CloseStream` at most once, as
    /// `lemma_deactivate_idempotent` states.
    pub fn deactivate(&mut self) -> (a: EngineAction)
        ensures
            final(self)@ == deactivate_transition(old(self)@).0,
            a == deactivate_transition(old(self)@).1,
            old(self)@.wf() ==> final(self)@.wf(),
    {
        match self.state {
            EngineState::Active => {
                self.state = EngineState::Inactive;
                self.current_device = None;
                proof {
                    assert(self@ =~= deactivate_transition(old(self)@).0);
                }
                EngineAction::CloseStream
            },
            EngineState::Inactive => EngineAction::Idle,
        }
    }

    /// Drains the stream status the host collected for this frame.
    /// While the stream runs the engine stays active; a failed stream
    /// moves it to inactive, and the caller may attempt reactivation.
    pub fn update(&mut self, status: StreamStatus) -> (outcome: UpdateOutcome)
        ensures
            final(self)@ == update_transition(old(self)@, status).0,
            outcome == update_transition(old(self)@, status).1,
            old(self)@.wf() ==> final(self)@.wf(),
    {
        match self.state {
            EngineState::Inactive => UpdateOutcome::Idle,
            EngineState::Active => match status {
                StreamStatus::Running { graph_error } => UpdateOutcome::StillActive { graph_error },
                StreamStatus::Failed { error_code } => {
                    self.state = EngineState::Inactive;
                    self.current_device = None;
                    proof {
                        assert(self@ =~= update_transition(old(self)@, status).0);
                    }
                    UpdateOutcome::Deactivated { error_code }
                },
            },
        }
    }

    /// Switches the output device: deactivate, then activate on the
    /// new device — the unconditional mutation strategy, paid for
    /// with a brief, bounded stream stop. The topology and
    /// configuration survive the switch. On failure the engine is
    /// left inactive and the caller must retry or stay silent.
    pub fn change_device(&mut self, requested: Option<u64>) -> (r: Result<u64, DeviceError>)
        requires
            old(self)@.wf(),
        ensures
            final(self)@.wf(),
            final(self)@.topology == old(self)@.topology,
            final(self)@.sample_rate == old(self)@.sample_rate,
            final(self)@.devices == old(self)@.devices,
            match r {
                Ok(d) => {
                    &&& chosen_device(old(self)@.devices, requested) == Some(d)
                    &&& final(self)@.state is Active
                    &&& final(self)@.current_device == Some(d)
                },
                Err(e) => {
                    &&& device_refusal(old(self)@.devices, requested) == Some(e)
                    &&& final(self)@.state is Inactive
                    &&& final(self)@.current_device is None
                },
            },
    {
        let _close = self.deactivate();
        self.activate(requested)
    }

    /// Applies every queued mutation to the owned topology inside
    /// this exclusive borrow — the window in which the real-time
    /// thread never observes a half-edited topology — and empties the
    /// queue. State, device and configuration are untouched.
    pub fn apply_queued(&mut self, queue: &mut MutationQueue) -> (results: Vec<
        Result<MutationOutcome, MutationError>,
    >)
        requires
            old(self)@.wf(),
        ensures
            final(self)@.wf(),
            final(self)@.topology == run_mutations(
                old(self)@.topology,
                old(queue)@,
                old(self)@.sample_rate,
            ),
            final(self)@.state == old(self)@.state,
            final(self)@.sample_rate == old(self)@.sample_rate,
            final(self)@.devices == old(self)@.devices,
            final(self)@.current_device == old(self)@.current_device,
            final(queue)@.len() == 0,
            results@.len() == old(queue)@.len(),
            forall|i: int|
                0 <= i < results@.len() ==> crate::mutation::is_batch_report(
                    old(self)@.topology,
                    old(queue)@,
                    old(self)@.sample_rate,
                    i,
                    #[trigger] results@[i],
                ),
    {
        let sample_rate = self.sample_rate;
        queue.apply_all(&mut self.topology, sample_rate)
    }
}

/// The single-owner slot the engine lives in between frames. The
/// engine is checked out for the duration of a mutation or update and
/// must be checked back in before the frame ends; an empty slot at
/// check-out time is a consistency error, surfaced loudly.
pub struct EngineSlot {
    engine: Option<Engine>,
}

impl View for EngineSlot {
    type V = Option<EngineModel>;

    closed spec fn view(&self) -> Option<EngineModel> {
        match self.engine {
            Some(e) => Some(e@),
            None => None,
        }
    }
}

impl EngineSlot {
    /// A slot holding `engine`.
    pub fn new(engine: Engine) -> (slot: EngineSlot)
        ensures
            slot@ == Some(engine@),
    {
        EngineSlot { engine: Some(engine) }
    }

    /// An empty slot.
    pub fn empty() -> (slot: EngineSlot)
        ensures
            slot@ is None,
    {
        EngineSlot { engine: None }
    }

    /// Whether an engine is currently stored.
    pub fn is_occupied(&self) -> (r: bool)
        ensures
            r == (self@ is Some),
    {
        match &self.engine {
            Some(_) => true,
            None => false,
        }
    }

    /// Takes exclusive ownership of the engine, leaving the slot
    /// empty. Fails loudly if the slot is empty: that means the last
    /// borrower never checked the engine back in.
    pub fn check_out(&mut self) -> (r: Result<Engine, ConsistencyError>)
        ensures
            match r {
                Ok(e) => {
                    &&& old(self)@ == Some(e@)
                    &&& final(self)@ is None
                },
                Err(err) => {
                    &&& err == ConsistencyError::EngineMissing
                    &&& old(self)@ is None
                    &&& final(self)@ is None
                },
            },
    {
        match self.engine.take() {
            Some(e) => Ok(e),
            None => Err(ConsistencyError::EngineMissing),
        }
    }

    /// Returns ownership of the engine to the slot. The slot must be
    /// empty: filling an occupied slot would silently drop a live
    /// engine.
    pub fn check_in(&mut self, engine: Engine)
        requires
            old(self)@ is None,
        ensures
            final(self)@ == Some(engine@),
    {
        self.engine = Some(engine);
    }
}

/// One mutation-application window: take exclusive ownership of the
/// engine out of its slot, apply the whole queued batch in emission
/// order, and return ownership before anything else runs. The window
/// is exclusive by construction — the slot is empty while the batch
/// is applied, so no second borrower can reach the topology.
pub fn apply_window(slot: &mut EngineSlot, queue: &mut MutationQueue) -> (r: Result<
    Vec<Result<MutationOutcome, MutationError>>,
    ConsistencyError,
>)
    requires
        old(slot)@ matches Some(e) ==> e.wf(),
    ensures
        match r {
            Ok(results) => {
                &&& old(slot)@ is Some
                &&& final(slot)@ is Some
                &&& {
                    let e0 = old(slot)@->Some_0;
                    let e1 = final(slot)@->Some_0;
                    &&& e1.wf()
                    &&& e1.topology == run_mutations(e0.topology, old(queue)@, e0.sample_rate)
                    &&& e1.state == e0.state
                    &&& e1.sample_rate == e0.sample_rate
                    &&& e1.devices == e0.devices
                    &&& e1.current_device == e0.current_device
                    &&& final(queue)@.len() == 0
                    &&& results@.len() == old(queue)@.len()
                    &&& forall|i: int|
                        0 <= i < results@.len() ==> crate::mutation::is_batch_report(
                            e0.topology,
                            old(queue)@,
                            e0.sample_rate,
                            i,
                            #[trigger] results@[i],
                        )
                }
            },
            Err(e) => {
                &&& e == ConsistencyError::EngineMissing
                &&& old(slot)@ is None
                &&& final(slot)@ is None
                &&& final(queue)@ == old(queue)@
            },
        },
{
    let mut engine = match slot.check_out() {
        Ok(e) => e,
        Err(e) => {
            return Err(e);
        },
    };
    let results = engine.apply_queued(queue);
    slot.check_in(engine);
    Ok(results)
}

/// One control-scheduler frame's engine upkeep: check the engine out,
/// shut it down if the application is exiting, otherwise drain the
/// stream status, and check it back in. The slot is refilled on every
/// path that found an engine.
pub fn frame_update(slot: &mut EngineSlot, exiting: bool, status: StreamStatus) -> (r: Result<
    (UpdateOutcome, EngineAction),
    ConsistencyError,
>)
    ensures
        match r {
            Ok((outcome, action)) => {
                &&& old(slot)@ is Some
                &&& if exiting {
                    &&& final(slot)@ == Some(deactivate_transition(old(slot)@->Some_0).0)
                    &&& action == deactivate_transition(old(slot)@->Some_0).1
                    &&& outcome == UpdateOutcome::Idle
                } else {
                    &&& final(slot)@ == Some(update_transition(old(slot)@->Some_0, status).0)
                    &&& outcome == update_transition(old(slot)@->Some_0, status).1
                    &&& action == EngineAction::Idle
                }
            },
            Err(e) => {
                &&& e == ConsistencyError::EngineMissing
                &&& old(slot)@ is None
                &&& final(slot)@ is None
            },
        },
{
    let mut engine = match slot.check_out() {
        Ok(e) => e,
        Err(e) => {
            return Err(e);
        },
    };
    if exiting {
        let action = engine.deactivate();
        slot.check_in(engine);
        Ok((UpdateOutcome::Idle, action))
    } else {
        let outcome = engine.update(status);
        slot.check_in(engine);
        Ok((outcome, EngineAction::Idle))
    }
}

} // verus!
