use web_crawler::entities_system::consumer::ConsumerErr;
use web_crawler::entities_system::producer::ProducerErr;
use web_crawler::entities_system::{
    EntitiesErr, Supervisor, SupervisorAction, SupervisorEvent, SupervisorStage,
};

#[test]
fn errors_convert_into_entities_err() {
    assert_eq!(
        EntitiesErr::from(ProducerErr::GlobalStateRxNoneErr),
        EntitiesErr::ProducerErr(ProducerErr::GlobalStateRxNoneErr)
    );
    assert_eq!(
        EntitiesErr::from(ProducerErr::HandlerError),
        EntitiesErr::ProducerErr(ProducerErr::HandlerError)
    );
    assert_eq!(
        EntitiesErr::from(ConsumerErr::HandlerError),
        EntitiesErr::ConsumerErr(ConsumerErr::HandlerError)
    );
}

#[test]
fn supervisor_polls_until_done() {
    let mut s = Supervisor::new();
    assert_eq!(s.expected(), SupervisorAction::CheckVisiting);
    assert_eq!(s.step(SupervisorEvent::VisitingDone(false)), SupervisorAction::CheckVisiting);
    assert_eq!(s.step(SupervisorEvent::VisitingDone(true)), SupervisorAction::SendEndSignal);
    assert_eq!(s.stage, SupervisorStage::AwaitEndSignal);
}

#[test]
fn supervisor_stops_when_end_signal_fails() {
    let mut s = Supervisor::new();
    s.step(SupervisorEvent::VisitingDone(true));
    assert_eq!(s.step(SupervisorEvent::EndSignalSent(false)), SupervisorAction::Stop);
    assert!(s.is_stopped());
    assert_eq!(s.step(SupervisorEvent::VisitingDone(true)), SupervisorAction::Stop);
}

#[test]
fn supervisor_joins_consumer_once_then_producers() {
    let mut s = Supervisor::new();
    s.step(SupervisorEvent::VisitingDone(true));
    assert_eq!(s.step(SupervisorEvent::EndSignalSent(true)), SupervisorAction::CheckThreads);
    // The consumer finished first.
    assert_eq!(
        s.step(SupervisorEvent::ThreadsFinished { producers: false, consumer: true }),
        SupervisorAction::Join { producers: false, consumer: true, then_stop: false }
    );
    assert!(s.consumer_joined);
    assert_eq!(s.expected(), SupervisorAction::CheckVisiting);
    s.step(SupervisorEvent::VisitingDone(true));
    s.step(SupervisorEvent::EndSignalSent(true));
    // The consumer is not joined again, whatever is reported of it.
    assert_eq!(
        s.step(SupervisorEvent::ThreadsFinished { producers: true, consumer: false }),
        SupervisorAction::Join { producers: true, consumer: false, then_stop: true }
    );
    assert!(s.is_stopped());
}

#[test]
fn supervisor_joins_everything_at_once() {
    let mut s = Supervisor::new();
    s.step(SupervisorEvent::VisitingDone(true));
    s.step(SupervisorEvent::EndSignalSent(true));
    assert_eq!(
        s.step(SupervisorEvent::ThreadsFinished { producers: true, consumer: true }),
        SupervisorAction::Join { producers: true, consumer: true, then_stop: true }
    );
    assert!(s.is_stopped());
}

#[test]
fn supervisor_ignores_answers_to_other_questions() {
    let mut s = Supervisor::new();
    assert_eq!(s.step(SupervisorEvent::EndSignalSent(false)), SupervisorAction::CheckVisiting);
    assert_eq!(
        s.step(SupervisorEvent::ThreadsFinished { producers: true, consumer: true }),
        SupervisorAction::CheckVisiting
    );
    assert_eq!(s.stage, SupervisorStage::AwaitVisiting);
}
