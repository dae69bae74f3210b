use vstd::prelude::*;

verus! {

/// The phase a job worker last reported.
#[derive(Clone, Copy, Debug, PartialEq, Eq, Structural)]
pub enum JobMessage {
    Starting,
    Rebalancing,
    Balanced,
    NoCandidates,
    HTLCcapped,
    Disconnected,
    PeerNotFound,
    PeerNotReady,
    ChanNotNormal,
    GraphEmpty,
    ChanNotInGraph,
    NoRoute,
    TooExp,
    Stopping,
    Stopped,
    Error,
    /// No state is recorded for this id; never entered by a running worker.
    NoJob,
}

pub open spec fn message_text(m: JobMessage) -> Seq<char> {
    match m {
        JobMessage::Starting => "Starting"@,
        JobMessage::Rebalancing => "Rebalancing"@,
        JobMessage::Balanced => "Balanced"@,
        JobMessage::NoCandidates => "NoCandidates"@,
        JobMessage::HTLCcapped => "HTLCcapped"@,
        JobMessage::Disconnected => "Disconnected"@,
        JobMessage::PeerNotFound => "PeerNotFound"@,
        JobMessage::PeerNotReady => "PeerNotReady"@,
        JobMessage::ChanNotNormal => "ChanNotNormal"@,
        JobMessage::GraphEmpty => "GraphEmpty"@,
        JobMessage::ChanNotInGraph => "ChanNotInGraph"@,
        JobMessage::NoRoute => "NoRoutes"@,
        JobMessage::TooExp => "NoCheapRoute"@,
        JobMessage::Stopping => "Stopping"@,
        JobMessage::Stopped => "Stopped"@,
        JobMessage::Error => "Error"@,
        JobMessage::NoJob => "NoJob"@,
    }
}

impl JobMessage {
    /// The name shown to users.
    pub fn as_str(&self) -> (r: &'static str)
        ensures
            r@ == message_text(*self),
    {
        match self {
            JobMessage::Starting => "Starting",
            JobMessage::Rebalancing => "Rebalancing",
            JobMessage::Balanced => "Balanced",
            JobMessage::NoCandidates => "NoCandidates",
            JobMessage::HTLCcapped => "HTLCcapped",
            JobMessage::Disconnected => "Disconnected",
            JobMessage::PeerNotFound => "PeerNotFound",
            JobMessage::PeerNotReady => "PeerNotReady",
            JobMessage::ChanNotNormal => "ChanNotNormal",
            JobMessage::GraphEmpty => "GraphEmpty",
            JobMessage::ChanNotInGraph => "ChanNotInGraph",
            JobMessage::NoRoute => "NoRoutes",
            JobMessage::TooExp => "NoCheapRoute",
            JobMessage::Stopping => "Stopping",
            JobMessage::Stopped => "Stopped",
            JobMessage::Error => "Error",
            JobMessage::NoJob => "NoJob",
        }
    }

    /// A worker exits after reporting one of these.
    pub open spec fn spec_is_terminal(self) -> bool {
        self == JobMessage::Stopped || self == JobMessage::Error
    }

    pub fn is_terminal(&self) -> (r: bool)
        ensures
            r == self.spec_is_terminal(),
    {
        matches!(self, JobMessage::Stopped | JobMessage::Error)
    }
}

/// The live record of one worker of a job.
#[derive(Clone, Copy, Debug, PartialEq, Eq, Structural)]
pub struct JobState {
    latest_state: JobMessage,
    active: bool,
    should_stop: bool,
    id: u8,
}

impl JobState {
    pub closed spec fn spec_state(self) -> JobMessage {
        self.latest_state
    }

    pub closed spec fn spec_active(self) -> bool {
        self.active
    }

    pub closed spec fn spec_should_stop(self) -> bool {
        self.should_stop
    }

    pub closed spec fn spec_id(self) -> u8 {
        self.id
    }

    /// A worker that has just started: active, not asked to stop.
    pub fn new(latest_state: JobMessage, id: u8) -> (r: Self)
        ensures
            r.spec_state() == latest_state,
            r.spec_active(),
            !r.spec_should_stop(),
            r.spec_id() == id,
    {
        JobState { latest_state, active: true, should_stop: false, id }
    }

    /// The record that stands for a worker that is not there.
    pub fn missing() -> (r: Self)
        ensures
            r.spec_state() == JobMessage::NoJob,
            !r.spec_active(),
            !r.spec_should_stop(),
            r.spec_id() == 0,
    {
        JobState { latest_state: JobMessage::NoJob, active: false, should_stop: false, id: 0 }
    }

    pub fn statechange(&mut self, latest_state: JobMessage)
        ensures
            final(self).spec_state() == latest_state,
            final(self).spec_active() == old(self).spec_active(),
            final(self).spec_should_stop() == old(self).spec_should_stop(),
            final(self).spec_id() == old(self).spec_id(),
    {
        self.latest_state = latest_state;
    }

    pub fn state(&self) -> (r: JobMessage)
        ensures
            r == self.spec_state(),
    {
        self.latest_state
    }

    /// Asks the worker to stop at its next safe point.
    pub fn stop(&mut self)
        ensures
            final(self).spec_should_stop(),
            final(self).spec_state() == old(self).spec_state(),
            final(self).spec_active() == old(self).spec_active(),
            final(self).spec_id() == old(self).spec_id(),
    {
        self.should_stop = true;
    }

    pub fn should_stop(&self) -> (r: bool)
        ensures
            r == self.spec_should_stop(),
    {
        self.should_stop
    }

    pub fn is_active(&self) -> (r: bool)
        ensures
            r == self.spec_active(),
    {
        self.active
    }

    pub fn set_active(&mut self, active: bool)
        ensures
            final(self).spec_active() == active,
            final(self).spec_state() == old(self).spec_state(),
            final(self).spec_should_stop() == old(self).spec_should_stop(),
            final(self).spec_id() == old(self).spec_id(),
    {
        self.active = active;
    }

    pub fn id(&self) -> (r: u8)
        ensures
            r == self.spec_id(),
    {
        self.id
    }
}

} // verus!
