use aranet::error::Error;
use aranet::polling::{Mode, Phase, PollAction, PollEvent, Poller};
use aranet::reading::{CurrentReading, Temp};

fn reading() -> CurrentReading {
    CurrentReading { c02: 600, temp: Temp::new(420), preasure: 10100, humidity: 40, bat: 90, status: 1 }
}

#[test]
fn single_shot_reads_once_and_finishes() {
    let mut p = Poller::new(Mode::Oneline, 30);
    assert_eq!(p.step(PollEvent::Start), PollAction::CheckConnection);
    assert_eq!(p.step(PollEvent::Connection(true)), PollAction::Read);
    assert_eq!(p.step(PollEvent::Read(Ok(reading()))), PollAction::Show(reading()));
    assert_eq!(p.step(PollEvent::Done), PollAction::Finish);
    assert_eq!(p.phase(), Phase::Stopped);
    assert_eq!(p.step(PollEvent::Start), PollAction::Ignore);
}

#[test]
fn single_shot_read_error_is_fatal() {
    let mut p = Poller::new(Mode::Pretty, 30);
    p.step(PollEvent::Start);
    p.step(PollEvent::Connection(true));
    assert_eq!(
        p.step(PollEvent::Read(Err(Error::ShortPayload))),
        PollAction::Fail(Error::ShortPayload)
    );
}

#[test]
fn continuous_read_error_is_logged_and_skipped() {
    let mut p = Poller::new(Mode::StreamingOneline, 5);
    p.step(PollEvent::Start);
    p.step(PollEvent::Connection(true));
    assert_eq!(
        p.step(PollEvent::Read(Err(Error::NoReadingsCharacteristic))),
        PollAction::Report(Error::NoReadingsCharacteristic)
    );
    assert_eq!(p.step(PollEvent::Done), PollAction::Sleep(5));
    assert_eq!(p.step(PollEvent::Done), PollAction::CheckConnection);
}

#[test]
fn continuous_poll_shows_then_sleeps() {
    let mut p = Poller::new(Mode::Service, 30);
    p.step(PollEvent::Start);
    p.step(PollEvent::Connection(true));
    assert_eq!(p.step(PollEvent::Read(Ok(reading()))), PollAction::Show(reading()));
    assert_eq!(p.step(PollEvent::Done), PollAction::Sleep(30));
    assert_eq!(p.step(PollEvent::Done), PollAction::CheckConnection);
}

#[test]
fn reconnect_rebuilds_endpoints_before_reading() {
    let mut p = Poller::new(Mode::Service, 30);
    p.step(PollEvent::Start);
    assert_eq!(p.step(PollEvent::Connection(false)), PollAction::Reconnect);
    assert_eq!(p.step(PollEvent::Reconnected(true)), PollAction::ResolveEndpoints);
    assert_eq!(p.step(PollEvent::Resolved), PollAction::Read);
}

#[test]
fn failed_reconnect_depends_on_mode() {
    let mut once = Poller::new(Mode::Oneline, 30);
    once.step(PollEvent::Start);
    once.step(PollEvent::Connection(false));
    assert_eq!(once.step(PollEvent::Reconnected(false)), PollAction::Fail(Error::ConnectionLost));

    let mut stream = Poller::new(Mode::StreamingOneline, 30);
    stream.step(PollEvent::Start);
    stream.step(PollEvent::Connection(false));
    assert_eq!(stream.step(PollEvent::Reconnected(false)), PollAction::Report(Error::ConnectionLost));
}

#[test]
fn unexpected_event_is_ignored() {
    let mut p = Poller::new(Mode::Oneline, 30);
    assert_eq!(p.step(PollEvent::Done), PollAction::Ignore);
    assert_eq!(p.phase(), Phase::Idle);
}

#[test]
fn continuous_modes() {
    assert!(Mode::Service.is_continuous());
    assert!(Mode::StreamingOneline.is_continuous());
    assert!(!Mode::Oneline.is_continuous());
    assert!(!Mode::Pretty.is_continuous());
}
