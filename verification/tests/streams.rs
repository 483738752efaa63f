use http_relay::stream::{relay, Arrival, Payload, Phase, StreamEvent, StreamSession};
use reqwest::StatusCode;

fn chunk(id: &str, text: &str) -> StreamEvent {
    StreamEvent { name: format!("stream-chunk-{}", id), payload: Payload::Chunk(text.to_string()) }
}

fn error(id: &str, message: &str) -> StreamEvent {
    StreamEvent { name: format!("stream-error-{}", id), payload: Payload::Error(message.to_string()) }
}

fn complete(id: &str) -> StreamEvent {
    StreamEvent { name: format!("stream-complete-{}", id), payload: Payload::Done }
}

fn bytes(text: &str) -> Arrival {
    Arrival::Chunk(text.as_bytes().to_vec())
}

#[test]
fn two_chunks_then_complete() {
    let arrivals = vec![Arrival::Responded(StatusCode::OK), bytes("ab"), bytes("cd"), Arrival::End];
    let (events, phase) = relay("s1".to_string(), &arrivals);
    assert_eq!(events, vec![chunk("s1", "ab"), chunk("s1", "cd"), complete("s1")]);
    assert_eq!(phase, Phase::Completed);
    assert_eq!(phase.outcome(), Some(Ok(())));
}

#[test]
fn empty_body_gives_complete_alone() {
    let arrivals = vec![Arrival::Responded(StatusCode::NO_CONTENT), Arrival::End];
    let (events, phase) = relay("e".to_string(), &arrivals);
    assert_eq!(events, vec![complete("e")]);
    assert_eq!(phase.outcome(), Some(Ok(())));
}

#[test]
fn send_failure_gives_one_error_and_no_chunk() {
    let arrivals = vec![Arrival::SendFailed("dns error".to_string())];
    let (events, phase) = relay("s2".to_string(), &arrivals);
    assert_eq!(events, vec![error("s2", "dns error")]);
    assert_eq!(phase, Phase::Failed("dns error".to_string()));
    assert_eq!(phase.outcome(), Some(Err("dns error".to_string())));
}

#[test]
fn status_that_is_no_success_gives_one_error() {
    let arrivals = vec![Arrival::Responded(StatusCode::NOT_FOUND), bytes("late"), Arrival::End];
    let (events, phase) = relay("s3".to_string(), &arrivals);
    assert_eq!(events, vec![error("s3", "Request failed with status: 404 Not Found")]);
    assert_eq!(phase.outcome(), Some(Err("Request failed with status: 404 Not Found".to_string())));
}

#[test]
fn redirect_status_is_no_success() {
    let arrivals = vec![Arrival::Responded(StatusCode::FOUND)];
    let (events, phase) = relay("r".to_string(), &arrivals);
    assert_eq!(events, vec![error("r", "Request failed with status: 302 Found")]);
    assert_eq!(phase, Phase::Failed("Request failed with status: 302 Found".to_string()));
}

#[test]
fn chunk_that_is_no_utf8_is_dropped() {
    let arrivals = vec![
        Arrival::Responded(StatusCode::OK),
        bytes("a"),
        Arrival::Chunk(vec![0xff, 0xfe]),
        bytes("b"),
        Arrival::End,
    ];
    let (events, _) = relay("u".to_string(), &arrivals);
    assert_eq!(events, vec![chunk("u", "a"), chunk("u", "b"), complete("u")]);
}

#[test]
fn character_split_over_two_chunks_is_lost() {
    let arrivals = vec![
        Arrival::Responded(StatusCode::OK),
        Arrival::Chunk(vec![b'x', 0xc3]),
        Arrival::Chunk(vec![0xa9, b'y']),
        Arrival::Chunk(vec![0xc3, 0xa9]),
        Arrival::End,
    ];
    let (events, phase) = relay("m".to_string(), &arrivals);
    assert_eq!(events, vec![chunk("m", "\u{e9}"), complete("m")]);
    assert_eq!(phase, Phase::Completed);
}

#[test]
fn read_failure_ends_the_stream_after_its_chunks() {
    let arrivals = vec![
        Arrival::Responded(StatusCode::OK),
        bytes("ab"),
        Arrival::ReadFailed("connection reset".to_string()),
        bytes("cd"),
        Arrival::End,
    ];
    let (events, phase) = relay("s4".to_string(), &arrivals);
    assert_eq!(events, vec![chunk("s4", "ab"), error("s4", "connection reset")]);
    assert_eq!(phase.outcome(), Some(Err("connection reset".to_string())));
}

#[test]
fn nothing_follows_the_complete_event() {
    let arrivals = vec![
        Arrival::Responded(StatusCode::OK),
        Arrival::End,
        bytes("late"),
        Arrival::End,
        Arrival::ReadFailed("late".to_string()),
        Arrival::SendFailed("late".to_string()),
    ];
    let (events, phase) = relay("s5".to_string(), &arrivals);
    assert_eq!(events, vec![complete("s5")]);
    assert_eq!(phase, Phase::Completed);
}

#[test]
fn open_session_has_no_outcome() {
    let (events, phase) = relay("o".to_string(), &Vec::new());
    assert!(events.is_empty());
    assert_eq!(phase, Phase::Waiting);
    assert_eq!(phase.outcome(), None);
    let (events, phase) = relay("o".to_string(), &vec![Arrival::Responded(StatusCode::OK), bytes("x")]);
    assert_eq!(events, vec![chunk("o", "x")]);
    assert_eq!(phase, Phase::Streaming);
    assert_eq!(phase.outcome(), None);
}

#[test]
fn session_steps_one_arrival_at_a_time() {
    let mut session = StreamSession::new("s1".to_string());
    assert_eq!(session.phase, Phase::Waiting);
    assert_eq!(session.step(&bytes("early")), None);
    assert_eq!(session.step(&Arrival::End), None);
    assert_eq!(session.phase, Phase::Waiting);
    assert_eq!(session.step(&Arrival::Responded(StatusCode::CREATED)), None);
    assert_eq!(session.phase, Phase::Streaming);
    assert_eq!(session.step(&Arrival::Responded(StatusCode::OK)), None);
    assert_eq!(session.step(&Arrival::SendFailed("x".to_string())), None);
    assert_eq!(session.step(&bytes("ab")), Some(chunk("s1", "ab")));
    assert_eq!(session.step(&bytes("")), Some(chunk("s1", "")));
    assert_eq!(session.step(&Arrival::End), Some(complete("s1")));
    assert_eq!(session.phase, Phase::Completed);
    assert_eq!(session.step(&bytes("cd")), None);
    assert_eq!(session.stream_id, "s1");
}

#[test]
fn events_are_named_after_the_stream() {
    let arrivals = vec![Arrival::Responded(StatusCode::OK), bytes("x"), Arrival::End];
    let (events, _) = relay("a-b/c 1".to_string(), &arrivals);
    assert_eq!(events[0].name, "stream-chunk-a-b/c 1");
    assert_eq!(events[1].name, "stream-complete-a-b/c 1");
    let (events, _) = relay(String::new(), &vec![Arrival::SendFailed("m".to_string())]);
    assert_eq!(events[0].name, "stream-error-");
}
