use garden::collector::{collect_body, BodyCollector, BodyEvent, CollectorStatus};
use garden::gateway::MyGateway;

#[test]
fn chunks_are_joined_in_order() {
    let mut collector = BodyCollector::new();
    assert_eq!(collector.status(), CollectorStatus::Reading);
    collector.accept(BodyEvent::Chunk(b"hel".to_vec()));
    collector.accept(BodyEvent::Chunk(Vec::new()));
    collector.accept(BodyEvent::Chunk(b"lo".to_vec()));
    assert_eq!(collector.status(), CollectorStatus::Reading);
    collector.accept(BodyEvent::End);
    assert_eq!(collector.status(), CollectorStatus::Complete);
    assert_eq!(collector.into_body(), Some(b"hello".to_vec()));
}

#[test]
fn stream_without_chunks_gives_the_empty_body() {
    let mut collector = BodyCollector::new();
    collector.accept(BodyEvent::End);
    assert_eq!(collector.into_body(), Some(Vec::new()));
}

#[test]
fn failure_is_not_taken_for_the_end() {
    let mut collector = BodyCollector::new();
    collector.accept(BodyEvent::Chunk(b"par".to_vec()));
    collector.accept(BodyEvent::Failure);
    assert_eq!(collector.status(), CollectorStatus::Failed);
    collector.accept(BodyEvent::Chunk(b"tial".to_vec()));
    collector.accept(BodyEvent::End);
    assert_eq!(collector.status(), CollectorStatus::Failed);
    assert_eq!(collector.into_body(), None);
}

#[test]
fn unfinished_stream_has_no_body() {
    let mut collector = BodyCollector::new();
    collector.accept(BodyEvent::Chunk(b"abc".to_vec()));
    assert_eq!(collector.into_body(), None);
}

#[test]
fn nothing_is_added_after_the_end() {
    let mut collector = BodyCollector::new();
    collector.accept(BodyEvent::Chunk(b"abc".to_vec()));
    collector.accept(BodyEvent::End);
    collector.accept(BodyEvent::Chunk(b"def".to_vec()));
    collector.accept(BodyEvent::Failure);
    assert_eq!(collector.status(), CollectorStatus::Complete);
    assert_eq!(collector.into_body(), Some(b"abc".to_vec()));
}

#[test]
fn large_body_is_collected_whole() {
    let mut collector = BodyCollector::new();
    let mut expected: Vec<u8> = Vec::new();
    for n in 0..64u8 {
        let chunk = vec![n; 64 * 1024];
        expected.extend_from_slice(&chunk);
        collector.accept(BodyEvent::Chunk(chunk));
    }
    collector.accept(BodyEvent::End);
    let body = collector.into_body();
    assert_eq!(body.as_ref().map(|b| b.len()), Some(4 * 1024 * 1024));
    assert_eq!(body, Some(expected));
}

#[test]
fn gateway_passes_every_request_to_the_fixed_upstream() {
    let gateway = MyGateway {};
    gateway.new_ctx();
    assert!(!gateway.request_filter());
    let peer = gateway.upstream_peer();
    assert_eq!(peer.host, "PROXY_BACKEND_PLACEHOLDER");
    assert_eq!(peer.port, 80);
    assert!(!peer.tls);
    assert_eq!(peer.sni, "PROXY_BACKEND_PLACEHOLDER");
}

#[test]
fn collect_body_joins_the_chunks_before_the_end() {
    let events = vec![
        BodyEvent::Chunk(b"ab".to_vec()),
        BodyEvent::Chunk(b"c".to_vec()),
        BodyEvent::End,
    ];
    assert_eq!(collect_body(&events), Some(b"abc".to_vec()));
    assert_eq!(collect_body(&vec![BodyEvent::End]), Some(Vec::new()));
}

#[test]
fn collect_body_gives_nothing_for_a_failed_or_open_stream() {
    let failed = vec![BodyEvent::Chunk(b"ab".to_vec()), BodyEvent::Failure, BodyEvent::End];
    assert_eq!(collect_body(&failed), None);
    let open = vec![BodyEvent::Chunk(b"ab".to_vec())];
    assert_eq!(collect_body(&open), None);
    assert_eq!(collect_body(&Vec::new()), None);
}

#[test]
fn collect_body_ignores_what_follows_the_end() {
    let events = vec![
        BodyEvent::Chunk(b"ab".to_vec()),
        BodyEvent::End,
        BodyEvent::Chunk(b"cd".to_vec()),
        BodyEvent::Failure,
    ];
    assert_eq!(collect_body(&events), Some(b"ab".to_vec()));
}
