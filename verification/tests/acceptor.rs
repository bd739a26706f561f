use last_project::acceptor::{Acceptor, Arrival, Decision};

#[test]
fn bound_of_two_takes_two_connections() {
    let mut acceptor = Acceptor::new(Some(2));
    assert!(acceptor.is_listening());
    assert_eq!(acceptor.remaining(), Some(2));
    assert_eq!(acceptor.on_arrival(Arrival::Connection), Decision::Submit);
    assert!(acceptor.is_listening());
    assert_eq!(acceptor.remaining(), Some(1));
    assert_eq!(acceptor.on_arrival(Arrival::Connection), Decision::Submit);
    assert!(!acceptor.is_listening());
    assert_eq!(acceptor.remaining(), Some(0));
    assert_eq!(acceptor.on_arrival(Arrival::Connection), Decision::Stop);
    assert_eq!(acceptor.remaining(), Some(0));
}

#[test]
fn bound_counts_submissions_exactly() {
    let mut acceptor = Acceptor::new(Some(200));
    let mut submitted = 0;
    let mut rounds = 0;
    while acceptor.is_listening() {
        let arrival = if rounds % 3 == 0 { Arrival::Failure } else { Arrival::Connection };
        if acceptor.on_arrival(arrival) == Decision::Submit {
            submitted += 1;
        }
        rounds += 1;
    }
    assert_eq!(submitted, 200);
    assert_eq!(rounds, 300);
}

#[test]
fn failure_is_reported_and_not_counted() {
    let mut acceptor = Acceptor::new(Some(1));
    for _ in 0..10 {
        assert_eq!(acceptor.on_arrival(Arrival::Failure), Decision::Report);
        assert!(acceptor.is_listening());
        assert_eq!(acceptor.remaining(), Some(1));
    }
    assert_eq!(acceptor.on_arrival(Arrival::Connection), Decision::Submit);
    assert!(!acceptor.is_listening());
}

#[test]
fn stop_request_stops_at_once() {
    let mut acceptor = Acceptor::new(Some(5));
    assert_eq!(acceptor.on_arrival(Arrival::Connection), Decision::Submit);
    assert_eq!(acceptor.on_arrival(Arrival::StopRequest), Decision::Stop);
    assert!(!acceptor.is_listening());
    assert_eq!(acceptor.remaining(), Some(4));
    assert_eq!(acceptor.on_arrival(Arrival::Connection), Decision::Stop);
    assert_eq!(acceptor.on_arrival(Arrival::Failure), Decision::Stop);
    assert_eq!(acceptor.on_arrival(Arrival::StopRequest), Decision::Stop);
    assert_eq!(acceptor.remaining(), Some(4));
}

#[test]
fn bound_of_zero_never_listens() {
    let mut acceptor = Acceptor::new(Some(0));
    assert!(!acceptor.is_listening());
    assert_eq!(acceptor.on_arrival(Arrival::Connection), Decision::Stop);
}

#[test]
fn no_bound_listens_until_asked_to_stop() {
    let mut acceptor = Acceptor::new(None);
    for _ in 0..1000 {
        assert_eq!(acceptor.on_arrival(Arrival::Connection), Decision::Submit);
        assert!(acceptor.is_listening());
        assert_eq!(acceptor.remaining(), None);
    }
    assert_eq!(acceptor.on_arrival(Arrival::StopRequest), Decision::Stop);
    assert!(!acceptor.is_listening());
}
