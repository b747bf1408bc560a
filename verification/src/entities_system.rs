//! The whole system: its errors, and the supervisor that decides, from what
//! the coordinator and the threads report, when the crawl ends and which
//! threads to join.
use vstd::prelude::*;
use crate::entities_system::consumer::ConsumerErr;
use crate::entities_system::producer::ProducerErr;

pub mod app_global_state;
pub mod consumer;
pub mod producer;

verus! {

/// Why the system could not be set up.
#[derive(Debug, Clone, Copy, PartialEq, Eq, Structural)]
pub enum EntitiesErr {
    ProducerErr(ProducerErr),
    ConsumerErr(ConsumerErr),
}

impl From<ProducerErr> for EntitiesErr {
    fn from(err: ProducerErr) -> (r: EntitiesErr) {
        EntitiesErr::ProducerErr(err)
    }
}

impl vstd::std_specs::convert::FromSpecImpl<ProducerErr> for EntitiesErr {
    open spec fn obeys_from_spec() -> bool {
        true
    }

    open spec fn from_spec(v: ProducerErr) -> EntitiesErr {
        EntitiesErr::ProducerErr(v)
    }
}

impl From<ConsumerErr> for EntitiesErr {
    fn from(err: ConsumerErr) -> (r: EntitiesErr) {
        EntitiesErr::ConsumerErr(err)
    }
}

impl vstd::std_specs::convert::FromSpecImpl<ConsumerErr> for EntitiesErr {
    open spec fn obeys_from_spec() -> bool {
        true
    }

    open spec fn from_spec(v: ConsumerErr) -> EntitiesErr {
        EntitiesErr::ConsumerErr(v)
    }
}

/// The question the supervisor waits to have answered.
#[derive(Debug, Clone, Copy, PartialEq, Eq, Structural)]
pub enum SupervisorStage {
    /// Whether the crawl's visiting is done.
    AwaitVisiting,
    /// Whether the end signal reached a producer.
    AwaitEndSignal,
    /// Whether the threads have finished.
    AwaitThreads,
    /// Nothing: the supervision is over.
    Stopped,
}

/// The supervisor of the main loop.
#[derive(Debug, Clone, Copy, PartialEq, Eq, Structural)]
pub struct Supervisor {
    pub stage: SupervisorStage,
    /// The consumer thread was joined already.
    pub consumer_joined: bool,
}

/// An answer to the supervisor's question.
#[derive(Debug, Clone, Copy, PartialEq, Eq, Structural)]
pub enum SupervisorEvent {
    /// Whether the coordinator reports the visiting done.
    VisitingDone(bool),
    /// Whether the end signal was delivered.
    EndSignalSent(bool),
    /// Whether all producer threads, and the consumer thread, have finished.
    ThreadsFinished { producers: bool, consumer: bool },
}

/// What the main loop is to do next.
#[derive(Debug, Clone, Copy, PartialEq, Eq, Structural)]
pub enum SupervisorAction {
    /// Ask the coordinator whether the visiting is done.
    CheckVisiting,
    /// Send the end signal to the producers.
    SendEndSignal,
    /// Ask whether the threads have finished.
    CheckThreads,
    /// Join the producer threads and/or the consumer thread, then stop or go on.
    Join { producers: bool, consumer: bool, then_stop: bool },
    /// Leave the main loop.
    Stop,
}

/// The action that asks the question a stage waits for.
pub open spec fn stage_action(stage: SupervisorStage) -> SupervisorAction {
    match stage {
        SupervisorStage::AwaitVisiting => SupervisorAction::CheckVisiting,
        SupervisorStage::AwaitEndSignal => SupervisorAction::SendEndSignal,
        SupervisorStage::AwaitThreads => SupervisorAction::CheckThreads,
        SupervisorStage::Stopped => SupervisorAction::Stop,
    }
}

/// One step of the supervisor: the next state and the action to perform.
/// An answer to a question other than the pending one changes nothing.
pub open spec fn supervisor_step(s: Supervisor, e: SupervisorEvent) -> (Supervisor, SupervisorAction) {
    match (s.stage, e) {
        (SupervisorStage::AwaitVisiting, SupervisorEvent::VisitingDone(done)) => {
            if done {
                (Supervisor { stage: SupervisorStage::AwaitEndSignal, ..s }, SupervisorAction::SendEndSignal)
            } else {
                (s, SupervisorAction::CheckVisiting)
            }
        },
        (SupervisorStage::AwaitEndSignal, SupervisorEvent::EndSignalSent(sent)) => {
            if sent {
                (Supervisor { stage: SupervisorStage::AwaitThreads, ..s }, SupervisorAction::CheckThreads)
            } else {
                (Supervisor { stage: SupervisorStage::Stopped, ..s }, SupervisorAction::Stop)
            }
        },
        (SupervisorStage::AwaitThreads, SupervisorEvent::ThreadsFinished { producers, consumer }) => {
            let consumer_finished = s.consumer_joined || consumer;
            let join_consumer = consumer_finished && !s.consumer_joined;
            let stop = producers && consumer_finished;
            (
                Supervisor {
                    stage: if stop { SupervisorStage::Stopped } else { SupervisorStage::AwaitVisiting },
                    consumer_joined: s.consumer_joined || join_consumer,
                },
                SupervisorAction::Join { producers, consumer: join_consumer, then_stop: stop },
            )
        },
        _ => (s, stage_action(s.stage)),
    }
}

/// Once the supervision is over it stays over, whatever is reported.
pub proof fn lemma_stopped_is_final(s: Supervisor, e: SupervisorEvent)
    requires
        s.stage == SupervisorStage::Stopped,
    ensures
        supervisor_step(s, e) == (s, SupervisorAction::Stop),
{
}

/// The consumer thread is joined at most once: after it was joined, no step
/// asks to join it again, and a step that joins it records that it did.
pub proof fn lemma_consumer_joined_once(s: Supervisor, e: SupervisorEvent)
    ensures
        s.consumer_joined ==> supervisor_step(s, e).0.consumer_joined,
        s.consumer_joined ==> !(supervisor_step(s, e).1 matches SupervisorAction::Join { consumer: true, .. }),
        supervisor_step(s, e).1 matches SupervisorAction::Join { consumer: true, .. } ==> supervisor_step(
            s,
            e,
        ).0.consumer_joined,
{
}

/// The end signal is sent only once the coordinator reported the visiting
/// done: a step that asks for it either just received that report or was
/// already waiting to send it.
pub proof fn lemma_end_signal_follows_done(s: Supervisor, e: SupervisorEvent)
    ensures
        supervisor_step(s, e).1 == SupervisorAction::SendEndSignal ==> (e == SupervisorEvent::VisitingDone(true)
            && s.stage == SupervisorStage::AwaitVisiting) || s.stage == SupervisorStage::AwaitEndSignal,
        supervisor_step(s, e).0.stage == SupervisorStage::AwaitEndSignal ==> (e == SupervisorEvent::VisitingDone(true)
            && s.stage == SupervisorStage::AwaitVisiting) || s.stage == SupervisorStage::AwaitEndSignal,
{
}

/// The supervision ends only when the end signal found no producer, or when
/// the producer threads have finished and the consumer thread has finished
/// (or was joined before).
pub proof fn lemma_stops_only_when_finished(s: Supervisor, e: SupervisorEvent)
    requires
        s.stage != SupervisorStage::Stopped,
        supervisor_step(s, e).0.stage == SupervisorStage::Stopped,
    ensures
        (s.stage == SupervisorStage::AwaitEndSignal && e == SupervisorEvent::EndSignalSent(false)) || (
        s.stage == SupervisorStage::AwaitThreads && (e matches SupervisorEvent::ThreadsFinished { producers, consumer }
            && producers && (consumer || s.consumer_joined))),
{
}

/// While the threads are not all finished, the supervisor goes back to
/// checking the visiting, and so sends the end signal again on the next
/// round; once they are, it stops. It joins the producers whenever they
/// report finished, and the consumer the first time it does.
pub proof fn lemma_supervisor_rounds(s: Supervisor, producers: bool, consumer: bool)
    requires
        s.stage == SupervisorStage::AwaitThreads,
    ensures
        ({
            let (t, a) = supervisor_step(s, SupervisorEvent::ThreadsFinished { producers, consumer });
            &&& !(producers && (consumer || s.consumer_joined)) ==> t.stage == SupervisorStage::AwaitVisiting
            &&& (producers && (consumer || s.consumer_joined)) ==> t.stage == SupervisorStage::Stopped
            &&& a == SupervisorAction::Join {
                producers: producers,
                consumer: consumer && !s.consumer_joined,
                then_stop: producers && (consumer || s.consumer_joined),
            }
            &&& t.consumer_joined == (s.consumer_joined || consumer)
        }),
{
}

/// From checking the visiting: a done crawl leads to the end signal, then
/// (when it was taken) to checking the threads; a crawl not done keeps
/// checking; an end signal nobody took ends the supervision.
pub proof fn lemma_supervisor_signals(s: Supervisor)
    ensures
        s.stage == SupervisorStage::AwaitVisiting ==> supervisor_step(s, SupervisorEvent::VisitingDone(true))
            == (Supervisor { stage: SupervisorStage::AwaitEndSignal, ..s }, SupervisorAction::SendEndSignal),
        s.stage == SupervisorStage::AwaitVisiting ==> supervisor_step(s, SupervisorEvent::VisitingDone(false))
            == (s, SupervisorAction::CheckVisiting),
        s.stage == SupervisorStage::AwaitEndSignal ==> supervisor_step(s, SupervisorEvent::EndSignalSent(true))
            == (Supervisor { stage: SupervisorStage::AwaitThreads, ..s }, SupervisorAction::CheckThreads),
        s.stage == SupervisorStage::AwaitEndSignal ==> supervisor_step(s, SupervisorEvent::EndSignalSent(false))
            == (Supervisor { stage: SupervisorStage::Stopped, ..s }, SupervisorAction::Stop),
{
}

impl Supervisor {
    /// The supervisor before the main loop starts: it first asks whether the
    /// visiting is done.
    pub fn new() -> (s: Supervisor)
        ensures
            s.stage == SupervisorStage::AwaitVisiting,
            !s.consumer_joined,
    {
        Supervisor { stage: SupervisorStage::AwaitVisiting, consumer_joined: false }
    }

    /// The action that asks the pending question.
    pub fn expected(&self) -> (a: SupervisorAction)
        ensures
            a == stage_action(self.stage),
    {
        match self.stage {
            SupervisorStage::AwaitVisiting => SupervisorAction::CheckVisiting,
            SupervisorStage::AwaitEndSignal => SupervisorAction::SendEndSignal,
            SupervisorStage::AwaitThreads => SupervisorAction::CheckThreads,
            SupervisorStage::Stopped => SupervisorAction::Stop,
        }
    }

    /// Takes an answer and decides what to do next.
    pub fn step(&mut self, event: SupervisorEvent) -> (a: SupervisorAction)
        ensures
            (*final(self), a) == supervisor_step(*old(self), event),
            old(self).stage == SupervisorStage::AwaitThreads ==> (event matches SupervisorEvent::ThreadsFinished {
                producers,
                consumer,
            } ==> {
                &&& !(producers && (consumer || old(self).consumer_joined)) ==> final(self).stage
                    == SupervisorStage::AwaitVisiting
                &&& (producers && (consumer || old(self).consumer_joined)) ==> final(self).stage
                    == SupervisorStage::Stopped
            }),
    {
        match (self.stage, event) {
            (SupervisorStage::AwaitVisiting, SupervisorEvent::VisitingDone(done)) => {
                if done {
                    self.stage = SupervisorStage::AwaitEndSignal;
                    SupervisorAction::SendEndSignal
                } else {
                    SupervisorAction::CheckVisiting
                }
            },
            (SupervisorStage::AwaitEndSignal, SupervisorEvent::EndSignalSent(sent)) => {
                if sent {
                    self.stage = SupervisorStage::AwaitThreads;
                    SupervisorAction::CheckThreads
                } else {
                    self.stage = SupervisorStage::Stopped;
                    SupervisorAction::Stop
                }
            },
            (SupervisorStage::AwaitThreads, SupervisorEvent::ThreadsFinished { producers, consumer }) => {
                let consumer_finished = self.consumer_joined || consumer;
                let join_consumer = consumer_finished && !self.consumer_joined;
                let stop = producers && consumer_finished;
                self.stage = if stop { SupervisorStage::Stopped } else { SupervisorStage::AwaitVisiting };
                self.consumer_joined = self.consumer_joined || join_consumer;
                SupervisorAction::Join { producers, consumer: join_consumer, then_stop: stop }
            },
            _ => self.expected(),
        }
    }

    /// The supervision is over.
    pub fn is_stopped(&self) -> (r: bool)
        ensures
            r == (self.stage == SupervisorStage::Stopped),
    {
        match self.stage {
            SupervisorStage::Stopped => true,
            _ => false,
        }
    }
}

} // verus!
