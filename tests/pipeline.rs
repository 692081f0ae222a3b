use event_sidecar::event::{event_key, ApiVersion, EventKey, KeyKind, SseData, SseEvent};
use event_sidecar::log::{EventLog, WriteOutcome};
use event_sidecar::processor::{handle_single_event, process_events};
use event_sidecar::rendezvous::{agree_api_versions, StartError};
use event_sidecar::server::{start_event_stream_server, OutboundEvent, ServerConfig};
use event_sidecar::session::{
    check_endpoints, ClientSession, EndpointInput, SessionAction, SessionError,
};

const SOURCE: &str = "http://127.0.0.1:18101";
const BLOCK_HASH_1: &str = "ca52062424e9d5631a34b7b401e123927ce29d4bd10bc97c7df0aa752f131bb7";
const BLOCK_HASH_3: &str = "4f3b4c0a5e0d5ad1e6d0f3bcf9c2d5a0d5c5f4a1d0e3d8f1c7b8a9d0e1f2a3b4";

fn v(major: u32, minor: u32, patch: u32) -> ApiVersion {
    ApiVersion::new(major, minor, patch)
}

fn block(hash: &str) -> SseData {
    SseData::BlockAdded { block_hash: hash.to_string(), block: format!("{{\"hash\":\"{hash}\"}}") }
}

fn received(id: Option<&str>, data: SseData) -> EndpointInput {
    EndpointInput::Received { id: id.map(|s| s.to_string()), data }
}

fn block_hash_of(data: &SseData) -> String {
    match data {
        SseData::BlockAdded { block_hash, .. } => block_hash.clone(),
        other => panic!("not a block: {other:?}"),
    }
}

/// Runs one upstream stream through a session (one sub-endpoint), the
/// processor and a server with one subscriber that joined before any event,
/// and returns what that subscriber saw and what the session reported.
fn run_single_source(
    stream: Vec<(Option<&str>, SseData)>,
    log: &mut EventLog,
) -> (Vec<OutboundEvent>, Vec<SessionAction>) {
    let mut session = ClientSession::new(SOURCE.to_string(), 3, 1);
    let mut other = Vec::new();
    let mut forwarded = Vec::new();
    let mut reports = Vec::new();
    assert!(matches!(session.handle(0, EndpointInput::Connected), SessionAction::Continue));
    for (id, data) in stream {
        match session.handle(0, received(id, data)) {
            SessionAction::ReportVersion(version) => reports.push(Ok(version)),
            SessionAction::Enqueue(e) => {
                if let Some(f) = handle_single_event(e, log) {
                    forwarded.push(f);
                }
            }
            SessionAction::EnqueueAndWait(e) => {
                if let Some(f) = handle_single_event(e, log) {
                    forwarded.push(f);
                }
                let action = session.handle(0, EndpointInput::DelayElapsed);
                assert!(matches!(action, SessionAction::Connect { .. }));
                other.push(action);
                assert!(matches!(session.handle(0, EndpointInput::Connected), SessionAction::Continue));
                let again = session.handle(0, received(None, SseData::ApiVersion(v(1, 0, 0))));
                assert!(matches!(again, SessionAction::Continue));
            }
            action => other.push(action),
        }
    }
    let mut server = start_event_stream_server(ServerConfig::new(19999, 100, 10), &reports)
        .expect("server starts");
    let mut seen = server.subscribe(None).expect("admitted");
    let cursor = server.next_event_id();
    for f in forwarded {
        server.broadcast(f.data);
    }
    seen.extend(server.pending(cursor).expect("not lagging"));
    (seen, other)
}

#[test]
fn single_source_one_block() {
    let mut log = EventLog::new();
    let (seen, _) = run_single_source(
        vec![(None, SseData::ApiVersion(v(1, 0, 0))), (Some("0"), block(BLOCK_HASH_1))],
        &mut log,
    );
    assert_eq!(seen.len(), 2);
    assert!(seen[0].id.is_none());
    assert!(matches!(seen[0].data, SseData::ApiVersion(x) if x == v(1, 0, 0)));
    assert_eq!(block_hash_of(&seen[1].data), BLOCK_HASH_1);
    assert_eq!(log.len(), 1);
    let key = event_key(&SseEvent::new(Some("0".to_string()), block(BLOCK_HASH_1), SOURCE.to_string()))
        .unwrap();
    assert!(log.contains(&key));
}

#[test]
fn single_source_two_blocks_in_order() {
    let mut log = EventLog::new();
    let (seen, _) = run_single_source(
        vec![
            (None, SseData::ApiVersion(v(1, 0, 0))),
            (Some("0"), block(BLOCK_HASH_1)),
            (Some("1"), block(BLOCK_HASH_3)),
        ],
        &mut log,
    );
    assert_eq!(seen.len(), 3);
    assert_eq!(block_hash_of(&seen[1].data), BLOCK_HASH_1);
    assert_eq!(block_hash_of(&seen[2].data), BLOCK_HASH_3);
    assert_eq!(seen[1].id, Some(0));
    assert_eq!(seen[2].id, Some(1));
}

#[test]
fn shutdown_then_block_reconnects_and_forwards() {
    let mut log = EventLog::new();
    let (seen, other) = run_single_source(
        vec![
            (None, SseData::ApiVersion(v(1, 0, 0))),
            (Some("0"), SseData::Shutdown),
            (Some("1"), block(BLOCK_HASH_1)),
        ],
        &mut log,
    );
    assert_eq!(seen.len(), 2);
    assert_eq!(block_hash_of(&seen[1].data), BLOCK_HASH_1);
    match &other[0] {
        SessionAction::Connect { last_event_id } => assert_eq!(last_event_id.as_deref(), Some("0")),
        a => panic!("unexpected {a:?}"),
    }
    assert_eq!(log.len(), 1);
}

fn pseudo_random_hash(seed: u64) -> String {
    let mut x = seed.wrapping_mul(0x9E37_79B9_7F4A_7C15).wrapping_add(0x1234_5678);
    let mut s = String::new();
    for _ in 0..4 {
        x ^= x >> 29;
        x = x.wrapping_mul(0xBF58_476D_1CE4_E5B9);
        s.push_str(&format!("{x:016x}"));
    }
    s
}

fn thirty_two_blocks() -> Vec<SseEvent> {
    let mut events = Vec::new();
    for i in 0..32u64 {
        events.push(SseEvent::new(
            Some(i.to_string()),
            block(&pseudo_random_hash(i)),
            SOURCE.to_string(),
        ));
    }
    events.push(SseEvent::new(Some("31".to_string()), SseData::Shutdown, SOURCE.to_string()));
    events
}

#[test]
fn thirty_two_blocks_then_replay_adds_nothing() {
    let mut log = EventLog::new();
    let out = process_events(thirty_two_blocks(), &mut log);
    assert_eq!(out.len(), 32);
    for (i, e) in out.iter().enumerate() {
        assert_eq!(e.id, Some(i.to_string()));
        assert_eq!(block_hash_of(&e.data), pseudo_random_hash(i as u64));
    }
    let again = process_events(thirty_two_blocks(), &mut log);
    assert_eq!(again.len(), 0);
    assert_eq!(log.len(), 32);
    assert_eq!(log.receipt_count(), 64);
}

#[test]
fn mismatched_versions_never_start_the_server() {
    let reports = vec![Ok(v(1, 4, 10)), Ok(v(1, 0, 0))];
    assert_eq!(agree_api_versions(&reports), Err(StartError::VersionMismatch));
    assert!(matches!(
        start_event_stream_server(ServerConfig::new(19999, 10, 10), &reports),
        Err(StartError::VersionMismatch)
    ));
}

#[test]
fn missing_main_endpoint_without_partial_connection() {
    // sub-endpoint 0 is /events/main (up), 1 is /events (down)
    let reachable = vec![true, false];
    assert_eq!(
        check_endpoints(&reachable, false),
        Err(SessionError::MissingEndpoint { index: 1 })
    );
    assert_eq!(check_endpoints(&reachable, true), Ok(vec![0]));
    let reports: Vec<Result<ApiVersion, SessionError>> = Vec::new();
    assert_eq!(agree_api_versions(&reports), Err(StartError::NoSources));
}

#[test]
fn duplicate_from_same_source_is_not_forwarded() {
    let mut log = EventLog::new();
    let e = |id: &str| SseEvent::new(Some(id.to_string()), block(BLOCK_HASH_1), SOURCE.to_string());
    assert!(handle_single_event(e("0"), &mut log).is_some());
    assert!(handle_single_event(e("1"), &mut log).is_none());
    assert_eq!(log.len(), 1);
    assert_eq!(log.receipt_count(), 2);
}

#[test]
fn same_block_from_two_sources_is_forwarded_twice() {
    let mut log = EventLog::new();
    let a = SseEvent::new(Some("0".to_string()), block(BLOCK_HASH_1), SOURCE.to_string());
    let b = SseEvent::new(Some("0".to_string()), block(BLOCK_HASH_1), "http://10.0.0.2:9999".to_string());
    let out = process_events(vec![a, b], &mut log);
    assert_eq!(out.len(), 2);
    assert_eq!(out[1].source, "http://10.0.0.2:9999");
}

#[test]
fn order_per_source_is_kept_when_interleaved() {
    let mut log = EventLog::new();
    let other = "http://10.0.0.2:9999";
    let ev = |src: &str, h: &str| SseEvent::new(None, block(h), src.to_string());
    let out = process_events(
        vec![ev(SOURCE, "a1"), ev(other, "b1"), ev(SOURCE, "a1"), ev(SOURCE, "a2"), ev(other, "b2")],
        &mut log,
    );
    let mine: Vec<String> =
        out.iter().filter(|e| e.source == SOURCE).map(|e| block_hash_of(&e.data)).collect();
    assert_eq!(mine, vec!["a1".to_string(), "a2".to_string()]);
    let theirs: Vec<String> =
        out.iter().filter(|e| e.source == other).map(|e| block_hash_of(&e.data)).collect();
    assert_eq!(theirs, vec!["b1".to_string(), "b2".to_string()]);
}

#[test]
fn handshake_and_shutdown_are_not_persisted() {
    let mut log = EventLog::new();
    let hs = SseEvent::new(None, SseData::ApiVersion(v(1, 0, 0)), SOURCE.to_string());
    let sd = SseEvent::new(Some("3".to_string()), SseData::Shutdown, SOURCE.to_string());
    assert!(handle_single_event(hs, &mut log).is_none());
    assert!(handle_single_event(sd, &mut log).is_none());
    assert_eq!(log.len(), 0);
    assert_eq!(log.receipt_count(), 0);
}

#[test]
fn keys_depend_on_the_variant() {
    let src = SOURCE.to_string();
    let fault = |era: u64, key: &str| {
        SseEvent::new(None, SseData::Fault { era_id: era, public_key: key.to_string(), timestamp: 7 }, src.clone())
    };
    let step = |era: u64| SseEvent::new(None, SseData::Step { era_id: era, execution_effect: "{}".to_string() }, src.clone());
    let sig = |b: &str, s: &str| {
        SseEvent::new(None, SseData::FinalitySignature { block_hash: b.to_string(), signature: s.to_string() }, src.clone())
    };
    let processed = |h: &str| {
        SseEvent::new(
            None,
            SseData::DeployProcessed {
                deploy_hash: h.to_string(),
                account: "01ab".to_string(),
                timestamp: 1,
                ttl: 2,
                dependencies: vec!["d1".to_string()],
                block_hash: BLOCK_HASH_1.to_string(),
                execution_result: "{}".to_string(),
            },
            src.clone(),
        )
    };
    let accepted = |h: &str| {
        SseEvent::new(None, SseData::DeployAccepted { deploy_hash: h.to_string(), deploy: "{}".to_string() }, src.clone())
    };
    let expired = |h: &str| SseEvent::new(None, SseData::DeployExpired { deploy_hash: h.to_string() }, src.clone());
    let mut log = EventLog::new();
    let out = process_events(
        vec![
            fault(1, "k1"),
            fault(1, "k1"),
            fault(1, "k2"),
            fault(2, "k1"),
            step(1),
            step(1),
            step(2),
            sig(BLOCK_HASH_1, "s1"),
            sig(BLOCK_HASH_1, "s1"),
            sig(BLOCK_HASH_1, "s2"),
            processed("d"),
            accepted("d"),
            expired("d"),
            processed("d"),
            accepted("d"),
            expired("d"),
        ],
        &mut log,
    );
    assert_eq!(out.len(), 10);
    assert_eq!(log.len(), 10);
    let k = event_key(&step(2)).unwrap();
    assert_eq!(k.kind, KeyKind::Step);
    assert_eq!(k.era, 2);
    assert!(log.contains(&k));
    assert!(event_key(&expired("d")).unwrap().same(&event_key(&expired("d")).unwrap()));
    assert!(!event_key(&expired("d")).unwrap().same(&event_key(&accepted("d")).unwrap()));
}

#[test]
fn log_save_outcomes() {
    let mut log = EventLog::new();
    let key = || EventKey {
        kind: KeyKind::BlockAdded,
        era: 0,
        primary: BLOCK_HASH_1.to_string(),
        secondary: String::new(),
        source: SOURCE.to_string(),
    };
    assert_eq!(log.save(key(), SOURCE.to_string(), Some("0".to_string())), WriteOutcome::Recorded);
    assert_eq!(log.save(key(), SOURCE.to_string(), Some("1".to_string())), WriteOutcome::Duplicate);
    assert!(WriteOutcome::Recorded.forwards());
    assert!(!WriteOutcome::Duplicate.forwards());
    assert!(!WriteOutcome::Failed.forwards());
}
