use model_relay::routing::Endpoint;
use model_relay::telemetry::FinishedEvent;
use model_relay::wire::{
    backend_head, finished_body, finished_head, head_for, local_uri_text, metrics_head,
    push_decimal, request_head, RequestHead, WireError, BACKEND_PATH, COLLECTOR_PORT,
    FINISHED_PATH, METRICS_PATH,
};

fn decimal(n: u16) -> String {
    let mut out = String::new();
    push_decimal(&mut out, n);
    out
}

#[test]
fn a_number_is_written_in_decimal() {
    assert_eq!(decimal(0), "0");
    assert_eq!(decimal(7), "7");
    assert_eq!(decimal(10), "10");
    assert_eq!(decimal(109), "109");
    assert_eq!(decimal(9001), "9001");
    assert_eq!(decimal(65535), "65535");
}

#[test]
fn every_port_is_written_as_std_writes_it() {
    for n in 0..=u16::MAX {
        assert_eq!(decimal(n), n.to_string());
    }
}

#[test]
fn the_numeral_goes_behind_what_is_there() {
    let mut out = "port ".to_string();
    push_decimal(&mut out, 3823);
    assert_eq!(out, "port 3823");
}

#[test]
fn a_local_address_names_port_and_path() {
    assert_eq!(
        local_uri_text(9001, "/v1/chat/completions"),
        "http://localhost:9001/v1/chat/completions"
    );
    assert_eq!(local_uri_text(3823, "/metrics"), "http://localhost:3823/metrics");
    assert_eq!(local_uri_text(0, ""), "http://localhost:0");
}

#[test]
fn the_backend_is_asked_under_its_own_host_and_port() {
    assert_eq!(
        backend_head(Endpoint { port: 9001 }),
        Ok(RequestHead {
            path: "/v1/chat/completions".to_string(),
            host: "localhost:9001".to_string(),
            json: false,
        })
    );
    assert_eq!(
        backend_head(Endpoint { port: 9002 }).map(|head| head.host),
        Ok("localhost:9002".to_string())
    );
}

#[test]
fn samples_go_to_the_collector() {
    assert_eq!(
        metrics_head(),
        Ok(RequestHead {
            path: "/metrics".to_string(),
            host: "localhost:3823".to_string(),
            json: true,
        })
    );
}

#[test]
fn finished_events_go_to_the_collector() {
    assert_eq!(
        finished_head(),
        Ok(RequestHead {
            path: "/finished".to_string(),
            host: "localhost:3823".to_string(),
            json: true,
        })
    );
}

#[test]
fn the_host_is_the_authority_and_not_the_whole_address() {
    let head = request_head(8080, "/a/b?c=d", true).unwrap();
    assert_eq!(head.host, "localhost:8080");
    assert_eq!(head.path, "/a/b?c=d");
    assert_ne!(head.host, local_uri_text(8080, "/a/b?c=d"));
}

#[test]
fn an_address_that_does_not_parse_has_no_authority() {
    assert_eq!(request_head(8080, " /with space", false), Err(WireError::NoAuthority));
}

#[test]
fn without_authority_there_is_no_head() {
    assert_eq!(head_for(None, "/metrics", true), Err(WireError::NoAuthority));
}

#[test]
fn with_an_authority_the_head_is_made() {
    assert_eq!(
        head_for(Some("example.org:80".to_string()), "/x", false),
        Ok(RequestHead { path: "/x".to_string(), host: "example.org:80".to_string(), json: false })
    );
}

#[test]
fn the_published_addresses() {
    assert_eq!(BACKEND_PATH, "/v1/chat/completions");
    assert_eq!(METRICS_PATH, "/metrics");
    assert_eq!(FINISHED_PATH, "/finished");
    assert_eq!(COLLECTOR_PORT, 3823);
}

#[test]
fn the_finished_body_names_the_request() {
    assert_eq!(
        finished_body(&FinishedEvent { request_id: "r1".to_string() }),
        "{\"userID\": \"r1\"}"
    );
    assert_eq!(
        finished_body(&FinishedEvent { request_id: "".to_string() }),
        "{\"userID\": \"\"}"
    );
    assert_eq!(
        finished_body(&FinishedEvent {
            request_id: "6f1c2a9e-0b7d-4c55-9d2e-1a2b3c4d5e6f".to_string()
        }),
        "{\"userID\": \"6f1c2a9e-0b7d-4c55-9d2e-1a2b3c4d5e6f\"}"
    );
}
