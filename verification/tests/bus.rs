//! Event bus behavior: ordering, subscribe-after isolation, lag, and the
//! no-receivers failure.
use cognito_core::events::AppEvent;
use cognito_core::events::EventBus;
use cognito_core::events::PublishError;
use cognito_core::events::RecvError;

#[test]
fn publish_without_receivers_fails_and_keeps_nothing() {
    let mut bus = EventBus::new();
    assert_eq!(
        bus.publish(AppEvent::ApplicationStarted),
        Err(PublishError::NoReceivers(AppEvent::ApplicationStarted))
    );

    let mut r = bus.subscribe();
    assert_eq!(bus.recv(&mut r), Err(RecvError::Empty));
}

#[test]
fn a_receiver_sees_only_events_published_after_subscribing_in_order() {
    let mut bus = EventBus::new();
    let mut early = bus.subscribe();

    assert!(bus.publish(AppEvent::QueryChanged("one".to_string())).is_ok());
    assert!(bus.publish(AppEvent::QueryChanged("two".to_string())).is_ok());
    assert!(bus.publish(AppEvent::QueryChanged("three".to_string())).is_ok());

    let mut late = bus.subscribe();
    assert_eq!(bus.recv(&mut late), Err(RecvError::Empty));

    assert!(bus.publish(AppEvent::MoveDown).is_ok());
    assert!(bus.publish(AppEvent::MoveUp).is_ok());

    assert_eq!(bus.recv(&mut late), Ok(AppEvent::MoveDown));
    assert_eq!(bus.recv(&mut late), Ok(AppEvent::MoveUp));
    assert_eq!(bus.recv(&mut late), Err(RecvError::Empty));

    assert_eq!(
        bus.recv(&mut early),
        Ok(AppEvent::QueryChanged("one".to_string()))
    );
    assert_eq!(
        bus.recv(&mut early),
        Ok(AppEvent::QueryChanged("two".to_string()))
    );
    assert_eq!(
        bus.recv(&mut early),
        Ok(AppEvent::QueryChanged("three".to_string()))
    );
    assert_eq!(bus.recv(&mut early), Ok(AppEvent::MoveDown));
    assert_eq!(bus.recv(&mut early), Ok(AppEvent::MoveUp));
    assert_eq!(bus.recv(&mut early), Err(RecvError::Empty));
}

#[test]
fn a_slow_receiver_is_told_how_many_events_it_missed() {
    let mut bus = EventBus::with_capacity(2);
    let mut slow = bus.subscribe();

    assert!(bus.publish(AppEvent::MoveUp).is_ok());
    assert!(bus.publish(AppEvent::MoveDown).is_ok());
    assert!(bus.publish(AppEvent::PageUp).is_ok());
    assert!(bus.publish(AppEvent::PageDown).is_ok());

    assert_eq!(bus.recv(&mut slow), Err(RecvError::Lagged(2)));
    assert_eq!(bus.recv(&mut slow), Ok(AppEvent::PageUp));
    assert_eq!(bus.recv(&mut slow), Ok(AppEvent::PageDown));
    assert_eq!(bus.recv(&mut slow), Err(RecvError::Empty));
}

#[test]
fn dropping_the_last_receiver_makes_publish_fail_again() {
    let mut bus = EventBus::new();
    let r1 = bus.subscribe();
    let r2 = bus.subscribe();
    assert_eq!(bus.publish(AppEvent::ApplicationStarted), Ok(2));

    bus.drop_receiver(r1);
    assert_eq!(bus.publish(AppEvent::EnterCommandMode), Ok(1));

    bus.drop_receiver(r2);
    match bus.publish(AppEvent::ApplicationClosing) {
        Err(PublishError::NoReceivers(returned)) => {
            assert_eq!(returned, AppEvent::ApplicationClosing);
        }
        other => panic!("expected the undelivered event back, got {other:?}"),
    }
}
