use ingest::pipeline::{Conduit, Event, SendOutcome};

#[test]
fn full_conduit_hands_item_back() {
    let mut c: Conduit<u32> = Conduit::new(2);
    assert!(matches!(c.try_send(1), SendOutcome::Accepted));
    assert!(matches!(c.try_send(2), SendOutcome::Accepted));
    assert!(matches!(c.try_send(3), SendOutcome::Full(3)));
    assert_eq!(c.len(), 2);
    assert_eq!(c.recv(), Some(1));
    assert!(matches!(c.try_send(3), SendOutcome::Accepted));
    assert_eq!(c.recv(), Some(2));
    assert_eq!(c.recv(), Some(3));
    assert_eq!(c.recv(), None);
}

#[test]
fn closed_conduit_reports_gone() {
    let mut c: Conduit<Event> = Conduit::new(1);
    c.close();
    match c.try_send(Event::Log { message: "m".to_string() }) {
        SendOutcome::Gone(Event::Log { message }) => assert_eq!(message, "m"),
        other => panic!("unexpected {:?}", other),
    }
    assert_eq!(c.len(), 0);
}
