use frippy::error::{log_error, ErrorKind, FrippyError};

#[test]
fn log_text_is_the_description_alone_without_causes() {
    let e = FrippyError::new(ErrorKind::Connection);
    assert_eq!(log_error(&e), "A connection error occured");
}

#[test]
fn log_text_chains_every_cause_in_order() {
    let mut e = FrippyError::with_cause(ErrorKind::ThreadSpawn, "out of memory".to_string());
    e.push_cause("resource limit hit".to_string());
    assert_eq!(log_error(&e), "Failed to spawn thread: out of memory: resource limit hit");
}

#[test]
fn each_kind_has_its_own_description() {
    assert_eq!(ErrorKind::Connection.description(), "A connection error occured");
    assert_eq!(ErrorKind::ThreadSpawn.description(), "Failed to spawn thread");
    assert_eq!(ErrorKind::Url.description(), "A Url error has occured");
    assert_eq!(ErrorKind::Tell.description(), "A Tell error has occured");
    assert_eq!(ErrorKind::Factoid.description(), "A Factoid error has occured");
    assert_eq!(ErrorKind::Quote.description(), "A Quote error has occured");
    assert_eq!(ErrorKind::Remind.description(), "A Remind error has occured");
    assert_eq!(ErrorKind::Counter.description(), "A Counter error has occured");
}

#[test]
fn an_error_keeps_its_kind() {
    let e = FrippyError::new(ErrorKind::Url);
    assert_eq!(e.kind(), ErrorKind::Url);
}
