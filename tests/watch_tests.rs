use ingest::api_watcher::{ApiWatcher, BodyEvent, Error, InvocationError, StreamError, WatchRequest};
use k8s_openapi::apimachinery::pkg::apis::meta::v1::WatchEvent;

fn pod_event(kind: &str, name: &str) -> String {
    format!(
        "{{\"type\":\"{}\",\"object\":{{\"apiVersion\":\"v1\",\"kind\":\"Pod\",\"metadata\":{{\"name\":\"{}\"}}}}}}\n",
        kind, name
    )
}

fn pod_name(event: &WatchEvent<k8s_openapi::api::core::v1::Pod>) -> String {
    match event {
        WatchEvent::Added(p) | WatchEvent::Modified(p) | WatchEvent::Deleted(p) => {
            p.metadata.name.clone().unwrap()
        }
        other => panic!("unexpected event {:?}", other),
    }
}

#[test]
fn status_ok_opens_a_stream() {
    assert!(ApiWatcher::<()>::classify_status(200).is_ok());
    let mut watcher = ApiWatcher::new(());
    assert!(watcher.on_response(Ok(200)).is_ok());
}

#[test]
fn status_gone_is_desync() {
    match ApiWatcher::<()>::classify_status(410) {
        Err(InvocationError::Desync { source: Error::BadStatus { status } }) => assert_eq!(status, 410),
        other => panic!("unexpected {:?}", other),
    }
    let mut watcher = ApiWatcher::new(());
    assert!(matches!(
        watcher.on_response(Ok(410)),
        Err(InvocationError::Desync { source: Error::BadStatus { status: 410 } })
    ));
}

#[test]
fn other_status_keeps_literal_code() {
    for code in [503u16, 404, 500, 201, 409] {
        match ApiWatcher::<()>::classify_status(code) {
            Err(InvocationError::Other { source: Error::BadStatus { status } }) => assert_eq!(status, code),
            other => panic!("unexpected {:?}", other),
        }
    }
}

#[test]
fn transport_failure_is_request_error() {
    let mut watcher = ApiWatcher::new(7u32);
    match watcher.on_response(Err("connection refused".to_string())) {
        Err(InvocationError::Other { source: Error::Request { message } }) => {
            assert_eq!(message, "connection refused")
        }
        other => panic!("unexpected {:?}", other.map(|_| ())),
    }
    assert_eq!(*watcher.client(), 7);
}

#[test]
fn prepare_builds_pod_watch_request() {
    let watcher = ApiWatcher::new(());
    let request = WatchRequest {
        resource_version: Some("1234".to_string()),
        label_selector: None,
        field_selector: None,
        pretty: None,
        timeout_seconds: None,
        allow_watch_bookmarks: None,
    };
    let req = watcher.prepare(&request).unwrap();
    let uri = req.uri().to_string();
    assert!(uri.starts_with("/api/v1/pods?"), "{}", uri);
    assert!(uri.contains("resourceVersion=1234"), "{}", uri);
    assert!(uri.contains("watch=true"), "{}", uri);
    assert_eq!(req.method(), http::Method::GET);
}

#[test]
fn three_frames_then_drop() {
    let mut watcher = ApiWatcher::new(());
    let mut decoder = watcher.on_response(Ok(200)).unwrap();
    let body = format!("{}{}{}", pod_event("ADDED", "a"), pod_event("MODIFIED", "b"), pod_event("DELETED", "c"));
    let bytes = body.as_bytes();
    let mut events = Vec::new();
    for chunk in [&bytes[..10], &bytes[10..95], &bytes[95..]] {
        for item in decoder.process_next_chunk(chunk) {
            events.push(item.unwrap());
        }
    }
    assert_eq!(events.len(), 3);
    assert_eq!(events.iter().map(pod_name).collect::<Vec<_>>(), vec!["a", "b", "c"]);
    assert!(matches!(events[0], WatchEvent::Added(_)));
    assert!(matches!(events[2], WatchEvent::Deleted(_)));
    match decoder.read_failed("connection reset".to_string()) {
        StreamError::Reading { message } => assert_eq!(message, "connection reset"),
        other => panic!("unexpected {:?}", other),
    }
}

#[test]
fn malformed_frame_does_not_end_stream() {
    let mut watcher = ApiWatcher::new(());
    let mut decoder = watcher.on_response(Ok(200)).unwrap();
    let body = format!("{}not json\n{}", pod_event("ADDED", "x"), pod_event("ADDED", "y"));
    let items = decoder.process_next_chunk(body.as_bytes());
    assert_eq!(items.len(), 3);
    assert_eq!(pod_name(items[0].as_ref().unwrap()), "x");
    assert!(matches!(items[1], Err(StreamError::Parsing { .. })));
    assert_eq!(pod_name(items[2].as_ref().unwrap()), "y");
    assert!(decoder.finish().is_none());
}

#[test]
fn unfinished_frame_reported_on_completion() {
    let mut watcher = ApiWatcher::new(());
    let mut decoder = watcher.on_response(Ok(200)).unwrap();
    assert!(decoder.process_next_chunk(b"{\"type\":").is_empty());
    match decoder.finish() {
        Some(StreamError::UnparsedDataUponCompletion { data }) => assert_eq!(data, b"{\"type\":".to_vec()),
        other => panic!("unexpected {:?}", other),
    }
}

#[test]
fn chunk_split_inside_frame_decodes_same_events() {
    let body = format!("{}{}", pod_event("ADDED", "p"), pod_event("MODIFIED", "q"));
    let bytes = body.as_bytes();
    for cut in 0..=bytes.len() {
        let mut watcher = ApiWatcher::new(());
        let mut decoder = watcher.on_response(Ok(200)).unwrap();
        let mut names = Vec::new();
        for chunk in [&bytes[..cut], &bytes[cut..]] {
            for item in decoder.process_next_chunk(chunk) {
                names.push(pod_name(&item.unwrap()));
            }
        }
        assert_eq!(names, vec!["p", "q"]);
    }
}

#[test]
fn prepare_carries_selectors_and_cursor() {
    let watcher = ApiWatcher::new(());
    let request = WatchRequest {
        resource_version: Some("77".to_string()),
        label_selector: Some("app=web".to_string()),
        field_selector: Some("spec.nodeName=n1".to_string()),
        pretty: Some("true".to_string()),
        timeout_seconds: Some(30),
        allow_watch_bookmarks: Some(true),
    };
    let uri = watcher.prepare(&request).unwrap().uri().to_string();
    assert!(uri.contains("resourceVersion=77"), "{}", uri);
    assert!(uri.contains("labelSelector=app%3Dweb"), "{}", uri);
    assert!(uri.contains("fieldSelector=spec.nodeName%3Dn1"), "{}", uri);
    assert!(uri.contains("pretty=true"), "{}", uri);
    assert!(uri.contains("timeoutSeconds=30"), "{}", uri);
    assert!(uri.contains("allowWatchBookmarks=true"), "{}", uri);
}

#[test]
fn blank_frames_are_skipped() {
    let mut watcher = ApiWatcher::new(());
    let mut decoder = watcher.on_response(Ok(200)).unwrap();
    let body = format!("\n  \r\n{}\t\n", pod_event("ADDED", "z"));
    let items = decoder.process_next_chunk(body.as_bytes());
    assert_eq!(items.len(), 1);
    assert_eq!(pod_name(items[0].as_ref().unwrap()), "z");
}

#[test]
fn trailing_bytes_after_event_are_reported() {
    let mut watcher = ApiWatcher::new(());
    let mut decoder = watcher.on_response(Ok(200)).unwrap();
    let line = pod_event("ADDED", "t");
    let body = format!("{} extra\n", line.trim_end());
    let items = decoder.process_next_chunk(body.as_bytes());
    assert_eq!(items.len(), 1);
    match &items[0] {
        Err(StreamError::TrailingData { data }) => assert_eq!(data, &b" extra".to_vec()),
        other => panic!("unexpected {:?}", other),
    }
}

#[test]
fn connection_drop_ends_stream_after_three_events() {
    let mut watcher = ApiWatcher::new(());
    let mut decoder = watcher.on_response(Ok(200)).unwrap();
    let body = format!("{}{}{}", pod_event("ADDED", "a"), pod_event("MODIFIED", "b"), pod_event("DELETED", "c"));
    let bytes = body.as_bytes();
    let mut items = Vec::new();
    for chunk in bytes.chunks(7) {
        items.extend(decoder.on_body_event(BodyEvent::Data(chunk.to_vec())));
    }
    assert!(!decoder.ended());
    let tail = decoder.on_body_event(BodyEvent::Failed("reset".to_string()));
    assert!(decoder.ended());
    assert_eq!(items.len(), 3);
    assert_eq!(items.iter().map(|i| pod_name(i.as_ref().unwrap())).collect::<Vec<_>>(), vec!["a", "b", "c"]);
    assert_eq!(tail.len(), 1);
    assert!(matches!(&tail[0], Err(StreamError::Reading { message }) if message == "reset"));
    assert!(decoder.on_body_event(BodyEvent::Data(bytes.to_vec())).is_empty());
    assert!(decoder.on_body_event(BodyEvent::Done).is_empty());
}

#[test]
fn body_end_reports_unfinished_frame() {
    let mut watcher = ApiWatcher::new(());
    let mut decoder = watcher.on_response(Ok(200)).unwrap();
    assert!(decoder.on_body_event(BodyEvent::Data(b"{\"ty".to_vec())).is_empty());
    let tail = decoder.on_body_event(BodyEvent::Done);
    assert!(decoder.ended());
    assert!(matches!(&tail[0], Err(StreamError::UnparsedDataUponCompletion { data }) if data == b"{\"ty"));
}
