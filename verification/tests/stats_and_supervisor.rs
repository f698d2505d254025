use broken_links::messages::ChannelMessage;
use broken_links::stats::ChannelStats;
use broken_links::supervisor::Supervisor;
use broken_links::supervisor::SupervisorEvent;
use broken_links::supervisor::Termination;

#[test]
fn peak_tracks_the_high_water_mark() {
    let mut stats = ChannelStats::new();
    assert_eq!(stats.peak(), 0);
    assert_eq!(stats.in_flight(), 0);
    stats.record_send_start();
    stats.record_send_start();
    assert_eq!(stats.in_flight(), 2);
    assert_eq!(stats.peak(), 2);
    stats.record_send_end();
    assert_eq!(stats.in_flight(), 1);
    assert_eq!(stats.peak(), 2);
    stats.record_send_end();
    assert_eq!(stats.peak(), 2);
    stats.record_send_start();
    assert_eq!(stats.in_flight(), 1);
    assert_eq!(stats.peak(), 2);
    stats.record_send_start();
    stats.record_send_start();
    assert_eq!(stats.peak(), 3);
}

#[test]
fn send_end_runs_on_the_failure_path_too() {
    let mut stats = ChannelStats::new();
    stats.record_send_start();
    // delivery failed: the pair still completes and the counter returns
    stats.record_send_end();
    assert_eq!(stats.in_flight(), 0);
    assert_eq!(stats.peak(), 1);
}

#[test]
fn supervisor_accumulates_and_stops_on_done() {
    let mut supervisor = Supervisor::new();
    assert!(supervisor.termination().is_none());
    assert!(supervisor.step(SupervisorEvent::Message(ChannelMessage::Found(String::from(
        "https://ex.com/one",
    )))));
    assert!(supervisor.step(SupervisorEvent::Message(ChannelMessage::Found(String::from(
        "https://ex.com/two",
    )))));
    assert!(!supervisor.step(SupervisorEvent::Message(ChannelMessage::Done)));
    assert_eq!(supervisor.termination(), Some(Termination::Clean));
    let records = supervisor.into_records();
    assert_eq!(records.len(), 2);
    assert_eq!(records[0].url, "https://ex.com/one");
    assert_eq!(records[1].url, "https://ex.com/two");
    assert!(records[0].title.is_none());
    assert!(records[1].title.is_none());
}

#[test]
fn cancellation_keeps_exactly_the_accumulated_records() {
    let mut supervisor = Supervisor::new();
    for url in ["https://ex.com/a", "https://ex.com/b", "https://ex.com/c"] {
        assert!(supervisor.step(SupervisorEvent::Message(ChannelMessage::Found(
            String::from(url),
        ))));
    }
    assert!(!supervisor.step(SupervisorEvent::Cancelled));
    assert_eq!(supervisor.termination(), Some(Termination::Cancelled));
    let records = supervisor.into_records();
    assert_eq!(records.len(), 3);
    assert_eq!(records[0].url, "https://ex.com/a");
    assert_eq!(records[1].url, "https://ex.com/b");
    assert_eq!(records[2].url, "https://ex.com/c");
}

#[test]
fn closed_channel_stops_the_loop_without_a_sentinel() {
    let mut supervisor = Supervisor::new();
    assert!(supervisor.step(SupervisorEvent::Message(ChannelMessage::Found(String::from(
        "https://ex.com/x",
    )))));
    assert!(!supervisor.step(SupervisorEvent::Closed));
    assert_eq!(supervisor.termination(), Some(Termination::ChannelClosed));
    assert_eq!(supervisor.into_records().len(), 1);
}
