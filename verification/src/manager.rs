//! The resilience manager: a state machine that keeps the telemetry
//! pipeline alive across sensor and broker outages.
//!
//! The sensor handle is acquired first, then the secure channel to the
//! broker; only with both live does the sampling pipeline run. Every
//! failure feeds its own exponential backoff: one per dependency, and
//! an outer settle delay applied after a pipeline run ends. A broker
//! failure sends acquisition back to the sensor step, since a stale
//! hardware handle cannot be assumed valid. Retries never stop; only
//! the delays grow, up to their caps.

use vstd::prelude::*;
use crate::backoff::Backoff;

verus! {

/// The sensor dependency waits the minimum of 5 seconds between
/// failed acquisitions and at most an hour.
pub const SENSOR_BACKOFF_MIN_MS: u64 = 5000;

pub const SENSOR_BACKOFF_MAX_MS: u64 = 3600000;

/// The broker dependency backs off like the sensor.
pub const BROKER_BACKOFF_MIN_MS: u64 = 5000;

pub const BROKER_BACKOFF_MAX_MS: u64 = 3600000;

/// The settle delay after a pipeline run ends starts at a quarter
/// second and is capped at five minutes.
pub const SETTLE_BACKOFF_MIN_MS: u64 = 250;

pub const SETTLE_BACKOFF_MAX_MS: u64 = 300000;

/// Where acquisition stands: each dependency passes from disconnected
/// through connecting to connected, and the pipeline runs only with
/// both live.
#[derive(Clone, Copy, PartialEq, Eq, Structural, Debug)]
pub enum Phase {
    /// No live sensor handle; acquiring one is the next step.
    AcquiringSensor,
    /// Sensor live; acquiring the secure channel is the next step.
    AcquiringBroker,
    /// Both dependencies live; the pipeline runs.
    Running,
}

/// What the outside world reports back to the manager.
#[derive(Clone, Copy, PartialEq, Eq, Structural, Debug)]
pub enum Event {
    SensorAcquired,
    SensorFailed,
    BrokerAcquired,
    BrokerFailed,
    /// The running pipeline ended because a dependency failed.
    PipelineFailed,
}

/// What the manager asks the outside world to do next. A delay of
/// zero means to proceed at once.
#[derive(Clone, Copy, PartialEq, Eq, Structural, Debug)]
pub enum Action {
    /// Sleep the given milliseconds, then try to acquire the sensor.
    AttemptSensor(u64),
    /// Try to acquire the secure channel and connect to the broker.
    AttemptBroker(u64),
    /// Hand control to the sampling pipeline.
    StartPipeline,
}

/// The manager's whole state: the phase and one backoff per concern.
pub struct Manager {
    pub phase: Phase,
    pub sensor_backoff: Backoff,
    pub broker_backoff: Backoff,
    pub settle_backoff: Backoff,
}

/// Which events can arrive in which phase.
pub open spec fn spec_admits(phase: Phase, ev: Event) -> bool {
    match (phase, ev) {
        (Phase::AcquiringSensor, Event::SensorAcquired) => true,
        (Phase::AcquiringSensor, Event::SensorFailed) => true,
        (Phase::AcquiringBroker, Event::BrokerAcquired) => true,
        (Phase::AcquiringBroker, Event::BrokerFailed) => true,
        (Phase::Running, Event::PipelineFailed) => true,
        _ => false,
    }
}

/// The transition relation: the state after an event, and the action
/// it calls for.
///
/// A sensor failure doubles the sensor backoff and retries the
/// sensor after the old delay. A sensor success resets its backoff
/// and moves on to the broker at once. A broker failure doubles the
/// broker backoff and, after the old delay, re-acquires from the
/// sensor step. A broker success resets the broker backoff and
/// starts the pipeline. A pipeline failure doubles the settle delay
/// and, after the old delay, re-acquires from the sensor step; the
/// settle delay is independent of the per-dependency backoffs and
/// only its cap bounds it.
pub open spec fn spec_step(m: Manager, ev: Event) -> (Manager, Action)
    recommends
        spec_admits(m.phase, ev),
{
    match (m.phase, ev) {
        (Phase::AcquiringSensor, Event::SensorFailed) => (
            Manager {
                phase: Phase::AcquiringSensor,
                sensor_backoff: m.sensor_backoff.spec_failed(),
                broker_backoff: m.broker_backoff,
                settle_backoff: m.settle_backoff,
            },
            Action::AttemptSensor(m.sensor_backoff.delay_ms),
        ),
        (Phase::AcquiringSensor, Event::SensorAcquired) => (
            Manager {
                phase: Phase::AcquiringBroker,
                sensor_backoff: m.sensor_backoff.spec_reset(),
                broker_backoff: m.broker_backoff,
                settle_backoff: m.settle_backoff,
            },
            Action::AttemptBroker(0),
        ),
        (Phase::AcquiringBroker, Event::BrokerFailed) => (
            Manager {
                phase: Phase::AcquiringSensor,
                sensor_backoff: m.sensor_backoff,
                broker_backoff: m.broker_backoff.spec_failed(),
                settle_backoff: m.settle_backoff,
            },
            Action::AttemptSensor(m.broker_backoff.delay_ms),
        ),
        (Phase::AcquiringBroker, Event::BrokerAcquired) => (
            Manager {
                phase: Phase::Running,
                sensor_backoff: m.sensor_backoff,
                broker_backoff: m.broker_backoff.spec_reset(),
                settle_backoff: m.settle_backoff,
            },
            Action::StartPipeline,
        ),
        _ => (
            Manager {
                phase: Phase::AcquiringSensor,
                sensor_backoff: m.sensor_backoff,
                broker_backoff: m.broker_backoff,
                settle_backoff: m.settle_backoff.spec_failed(),
            },
            Action::AttemptSensor(m.settle_backoff.delay_ms),
        ),
    }
}

impl Manager {
    /// Every backoff stays within its bounds.
    pub open spec fn wf(&self) -> bool {
        self.sensor_backoff.wf() && self.broker_backoff.wf() && self.settle_backoff.wf()
    }

    /// A fresh manager acquires the sensor first, with every backoff
    /// at its minimum.
    pub fn new() -> (m: Manager)
        ensures
            m.phase == Phase::AcquiringSensor,
            m.sensor_backoff == (Backoff {
                delay_ms: SENSOR_BACKOFF_MIN_MS,
                min_ms: SENSOR_BACKOFF_MIN_MS,
                max_ms: SENSOR_BACKOFF_MAX_MS,
            }),
            m.broker_backoff == (Backoff {
                delay_ms: BROKER_BACKOFF_MIN_MS,
                min_ms: BROKER_BACKOFF_MIN_MS,
                max_ms: BROKER_BACKOFF_MAX_MS,
            }),
            m.settle_backoff == (Backoff {
                delay_ms: SETTLE_BACKOFF_MIN_MS,
                min_ms: SETTLE_BACKOFF_MIN_MS,
                max_ms: SETTLE_BACKOFF_MAX_MS,
            }),
            m.wf(),
    {
        Manager {
            phase: Phase::AcquiringSensor,
            sensor_backoff: Backoff::new(SENSOR_BACKOFF_MIN_MS, SENSOR_BACKOFF_MAX_MS),
            broker_backoff: Backoff::new(BROKER_BACKOFF_MIN_MS, BROKER_BACKOFF_MAX_MS),
            settle_backoff: Backoff::new(SETTLE_BACKOFF_MIN_MS, SETTLE_BACKOFF_MAX_MS),
        }
    }

    /// Feeds one event in and hands the next action back; the state
    /// moves exactly as the transition relation says, and the first
    /// acquisition attempt carries no delay while every retry carries
    /// the failed concern's backoff delay.
    pub fn step(&mut self, ev: Event) -> (a: Action)
        requires
            old(self).wf(),
            spec_admits(old(self).phase, ev),
        ensures
            (*final(self), a) == spec_step(*old(self), ev),
            final(self).wf(),
    {
        match (self.phase, ev) {
            (Phase::AcquiringSensor, Event::SensorFailed) => {
                let d: u64 = self.sensor_backoff.delay_ms();
                self.sensor_backoff.on_failure();
                Action::AttemptSensor(d)
            },
            (Phase::AcquiringSensor, Event::SensorAcquired) => {
                self.sensor_backoff.on_success();
                self.phase = Phase::AcquiringBroker;
                Action::AttemptBroker(0)
            },
            (Phase::AcquiringBroker, Event::BrokerFailed) => {
                let d: u64 = self.broker_backoff.delay_ms();
                self.broker_backoff.on_failure();
                self.phase = Phase::AcquiringSensor;
                Action::AttemptSensor(d)
            },
            (Phase::AcquiringBroker, Event::BrokerAcquired) => {
                self.broker_backoff.on_success();
                self.phase = Phase::Running;
                Action::StartPipeline
            },
            _ => {
                let d: u64 = self.settle_backoff.delay_ms();
                self.settle_backoff.on_failure();
                self.phase = Phase::AcquiringSensor;
                Action::AttemptSensor(d)
            },
        }
    }
}

} // verus!
