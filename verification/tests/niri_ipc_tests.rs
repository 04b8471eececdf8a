use dock::application::{request_for, Input};
use dock::dock::Event;
use dock::ipc::{
    encode_request, focus_window, frame_line, reply_from_read, reply_line, reply_timeout, settle_reply, spawn,
    EventStreamReader, LineRead, NiriError, Reconnector, Request, RequestWorker, StreamRead, StreamStep,
    WorkerAction, WorkerEvent, APP_ID,
};
use std::time::Duration;

fn io_err() -> std::io::Error {
    std::io::Error::new(std::io::ErrorKind::Other, "boom")
}

#[test]
fn app_id_is_the_dock_id() {
    assert_eq!(APP_ID, "org.niri.dock");
}

#[test]
fn messages_match_each_error_kind() {
    assert_eq!(
        NiriError::SocketNotSet.message(),
        "NIRI_SOCKET is not set \u{2014} is this running inside a niri session?"
    );
    assert_eq!(NiriError::Connect(io_err()).message(), "failed to connect to the niri socket: boom");
    assert_eq!(NiriError::Write(io_err()).message(), "failed to write to the niri socket: boom");
    assert_eq!(NiriError::Read(io_err()).message(), "failed to read from the niri socket: boom");
    assert_eq!(NiriError::ConnectionClosed.message(), "niri closed the connection");
    assert_eq!(NiriError::Timeout.message(), "timed out waiting for a reply from niri");
    assert_eq!(NiriError::Niri("no such window".into()).message(), "niri reported an error: no such window");
    assert_eq!(NiriError::WorkerGone.message(), "the niri request worker is not running");
    assert_eq!(
        NiriError::ReplyDropped.message(),
        "the niri request worker dropped the reply before answering"
    );
    let json_err = serde_json::from_str::<u8>("x").unwrap_err();
    let text = json_err.to_string();
    assert_eq!(NiriError::Deserialize(json_err).message(), format!("failed to parse niri's reply: {text}"));
    let json_err = serde_json::from_str::<u8>("[").unwrap_err();
    assert!(NiriError::Serialize(json_err).message().starts_with("failed to serialize request: "));
}

#[test]
fn spawn_runs_through_the_shell() {
    match spawn("firefox --new-window".to_string()) {
        Request::Spawn { command } => assert_eq!(command, vec!["sh", "-c", "firefox --new-window"]),
        _ => panic!("expected spawn"),
    }
}

#[test]
fn application_inputs_become_requests() {
    assert!(matches!(request_for(Input::FocusWindow(12)), Request::FocusWindow { id: 12 }));
    match request_for(Input::LaunchApp("foot".into())) {
        Request::Spawn { command } => assert_eq!(command, vec!["sh", "-c", "foot"]),
        _ => panic!("expected spawn"),
    }
    assert!(matches!(
        Input::from_dock(dock::dock::Output::Focus(5)),
        Input::FocusWindow(5)
    ));
}

#[test]
fn requests_are_newline_terminated() {
    assert_eq!(frame_line("\"EventStream\"".to_string()), "\"EventStream\"\n");
    assert_eq!(frame_line(String::new()), "\n");
}

#[test]
fn reply_wait_is_five_seconds() {
    assert_eq!(reply_timeout(), Duration::from_secs(5));
}

#[test]
fn read_outcomes_map_to_errors() {
    assert_eq!(reply_line(LineRead::Line("{\"Ok\":\"Handled\"}".into())).ok().as_deref(), Some("{\"Ok\":\"Handled\"}"));
    assert!(matches!(reply_line(LineRead::Closed), Err(NiriError::ConnectionClosed)));
    assert!(matches!(reply_line(LineRead::Failed(io_err())), Err(NiriError::Read(_))));
    assert!(matches!(reply_line(LineRead::TimedOut), Err(NiriError::Timeout)));
}

#[test]
fn replies_settle_into_results() {
    assert!(matches!(settle_reply::<u8>(None), Err(NiriError::ReplyDropped)));
    assert!(matches!(settle_reply::<u8>(Some(Err(NiriError::Timeout))), Err(NiriError::Timeout)));
    assert!(matches!(settle_reply::<u8>(Some(Ok(Ok(3)))), Ok(3)));
    match settle_reply::<u8>(Some(Ok(Err("bad".into())))) {
        Err(NiriError::Niri(m)) => assert_eq!(m, "bad"),
        _ => panic!("expected a niri error"),
    }
}

#[test]
fn worker_reconnects_with_backoff_and_keeps_good_connections() {
    let mut w = RequestWorker::new();
    let quick = Duration::from_millis(5);
    assert!(matches!(w.step(WorkerEvent::ConnectFailed { elapsed: quick }), WorkerAction::Reconnect { after } if after == Duration::from_secs(2)));
    assert!(matches!(w.step(WorkerEvent::Served { failed: false, elapsed: quick }), WorkerAction::NextRequest));
    assert!(matches!(w.step(WorkerEvent::Served { failed: true, elapsed: quick }), WorkerAction::Reconnect { after } if after == Duration::from_secs(4)));
    assert!(matches!(
        w.step(WorkerEvent::Served { failed: true, elapsed: Duration::from_secs(60) }),
        WorkerAction::Reconnect { after } if after == Duration::from_secs(1)
    ));
    assert!(matches!(w.step(WorkerEvent::RequestsClosed), WorkerAction::Stop));
}

#[test]
fn reconnector_stays_within_thirty_seconds() {
    let mut r = Reconnector::niri_default();
    let allowed: Vec<Duration> = [1, 2, 4, 8, 16, 30].iter().map(|s| Duration::from_secs(*s)).collect();
    for _ in 0..20 {
        assert!(allowed.contains(&r.retry_delay(Duration::ZERO)));
    }
    assert_eq!(r.retry_delay(Duration::ZERO), Duration::from_secs(30));
}

#[test]
fn event_stream_skips_the_reply_then_delivers_events() {
    let mut r = EventStreamReader::new();
    assert!(matches!(r.step(StreamRead::Line("{\"Ok\":\"Handled\"}".into())), StreamStep::SkipReply));
    assert!(matches!(
        r.step(StreamRead::Line("{\"WindowClosed\":{\"id\":3}}".into())),
        StreamStep::Deliver(Event::WindowClosed { id: 3 })
    ));
    assert!(matches!(
        r.step(StreamRead::Line("{\"WindowFocusChanged\":{\"id\":5}}".into())),
        StreamStep::Deliver(Event::WindowFocusChanged { id: Some(5) })
    ));
    assert!(matches!(
        r.step(StreamRead::Line("{\"WindowFocusChanged\":{\"id\":null}}".into())),
        StreamStep::Deliver(Event::WindowFocusChanged { id: None })
    ));
    assert!(matches!(
        r.step(StreamRead::Line("{\"WorkspaceUrgencyChanged\":{\"id\":1,\"urgent\":true}}".into())),
        StreamStep::Deliver(Event::Other)
    ));
    assert!(matches!(r.step(StreamRead::Line("not json".into())), StreamStep::SkipUnparsed));
    assert!(matches!(r.step(StreamRead::ConsumerGone), StreamStep::Finish(Ok(()))));
    assert!(matches!(r.step(StreamRead::End), StreamStep::Finish(Ok(()))));
    assert!(matches!(r.step(StreamRead::Failed(io_err())), StreamStep::Finish(Err(NiriError::Read(_)))));
}

#[test]
fn event_lines_carry_window_fields() {
    let line = "{\"WindowOpenedOrChanged\":{\"window\":{\"id\":7,\"title\":\"Web\",\"app_id\":\"firefox\",\"pid\":null,\"workspace_id\":null,\"is_focused\":true,\"is_floating\":false,\"is_urgent\":false,\"layout\":{\"pos_in_scrolling_layout\":null,\"tile_size\":[1.0,1.0],\"window_size\":[1,1],\"tile_pos_in_workspace_view\":null,\"window_offset_in_tile\":[0.0,0.0]},\"focus_timestamp\":null}}}";
    let mut r = EventStreamReader::new();
    r.step(StreamRead::Line(String::new()));
    match r.step(StreamRead::Line(line.into())) {
        StreamStep::Deliver(Event::WindowOpenedOrChanged { window }) => {
            assert_eq!(window.id, 7);
            assert_eq!(window.title.as_deref(), Some("Web"));
            assert_eq!(window.app_id.as_deref(), Some("firefox"));
            assert!(window.is_focused);
        }
        _ => panic!("expected an opened window"),
    }
}

#[test]
fn requests_encode_as_niri_json_lines() {
    assert_eq!(encode_request(focus_window(3)).ok().as_deref(), Some("{\"Action\":{\"FocusWindow\":{\"id\":3}}}\n"));
    assert_eq!(
        encode_request(spawn("foot".into())).ok().as_deref(),
        Some("{\"Action\":{\"Spawn\":{\"command\":[\"sh\",\"-c\",\"foot\"]}}}\n")
    );
    assert_eq!(encode_request(Request::EventStream).ok().as_deref(), Some("\"EventStream\"\n"));
}

#[test]
fn replies_are_parsed_from_the_read_line() {
    assert!(matches!(reply_from_read(LineRead::Line("{\"Ok\":\"Handled\"}".into())), Ok(Ok(niri_ipc::Response::Handled))));
    match reply_from_read(LineRead::Line("{\"Err\":\"no such window\"}".into())) {
        Ok(Err(m)) => assert_eq!(m, "no such window"),
        _ => panic!("expected an error reply"),
    }
    assert!(matches!(reply_from_read(LineRead::Line("garbage".into())), Err(NiriError::Deserialize(_))));
    assert!(matches!(reply_from_read(LineRead::Closed), Err(NiriError::ConnectionClosed)));
    assert!(matches!(reply_from_read(LineRead::TimedOut), Err(NiriError::Timeout)));
    assert!(matches!(reply_from_read(LineRead::Failed(io_err())), Err(NiriError::Read(_))));
}
