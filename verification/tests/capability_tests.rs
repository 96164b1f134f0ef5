use wasmtime_http::capability::{HttpCapability, RequestDecision};

fn origin(s: &str) -> String {
    s.to_string()
}

#[test]
fn no_allowlist_denies_every_request() {
    let mut cap = HttpCapability::new(None, None);
    let d = cap.decide(&origin("https://postman-echo.com"));
    assert_eq!(d, RequestDecision::DeniedByAllowlist);
    assert_eq!(cap.current_in_flight(), 0);
}

#[test]
fn empty_allowlist_denies_every_request() {
    let mut cap = HttpCapability::new(Some(vec![]), None);
    let d = cap.decide(&origin("https://api.brigade.sh"));
    assert_eq!(d, RequestDecision::DeniedByAllowlist);
    assert_eq!(cap.current_in_flight(), 0);
}

#[test]
fn allowlisted_origin_is_accepted_and_other_origins_are_denied() {
    let hosts = vec![
        origin("https://api.brigade.sh"),
        origin("https://postman-echo.com"),
    ];
    let mut cap = HttpCapability::new(Some(hosts), None);
    assert_eq!(
        cap.decide(&origin("https://api.brigade.sh")),
        RequestDecision::Allowed
    );
    assert_eq!(
        cap.decide(&origin("https://postman-echo.com")),
        RequestDecision::Allowed
    );
    assert_eq!(
        cap.decide(&origin("https://not-on-the-list.example")),
        RequestDecision::DeniedByAllowlist
    );
    assert_eq!(cap.current_in_flight(), 2);
}

#[test]
fn denial_wins_over_missing_capacity() {
    let mut cap = HttpCapability::new(Some(vec![origin("https://a.example")]), Some(1));
    assert_eq!(cap.decide(&origin("https://a.example")), RequestDecision::Allowed);
    assert_eq!(
        cap.decide(&origin("https://b.example")),
        RequestDecision::DeniedByAllowlist
    );
}

#[test]
fn ceiling_is_never_exceeded() {
    let host = origin("https://postman-echo.com");
    let mut cap = HttpCapability::new(Some(vec![host.clone()]), Some(2));
    assert_eq!(cap.decide(&host), RequestDecision::Allowed);
    assert_eq!(cap.decide(&host), RequestDecision::Allowed);
    assert_eq!(cap.current_in_flight(), 2);
    assert_eq!(cap.decide(&host), RequestDecision::ThrottledByCapacity);
    assert_eq!(cap.current_in_flight(), 2);
    cap.settle();
    assert_eq!(cap.current_in_flight(), 1);
    assert_eq!(cap.decide(&host), RequestDecision::Allowed);
    assert_eq!(cap.decide(&host), RequestDecision::ThrottledByCapacity);
}

#[test]
fn unbounded_concurrency_keeps_accepting() {
    let host = origin("https://example.test");
    let mut cap = HttpCapability::new(Some(vec![host.clone()]), None);
    for _ in 0..100 {
        assert_eq!(cap.decide(&host), RequestDecision::Allowed);
    }
    assert_eq!(cap.current_in_flight(), 100);
}

#[test]
fn allowed_get_scenario_completes_with_no_output() {
    // A module whose exported function makes one allowed request and
    // returns no values: the request is accepted, settles, and the empty
    // result sequence prints nothing.
    let host = origin("https://example.test");
    let mut cap = HttpCapability::new(Some(vec![host.clone()]), None);
    assert_eq!(cap.decide(&host), RequestDecision::Allowed);
    cap.settle();
    assert_eq!(cap.current_in_flight(), 0);
    let lines = wasmtime_http::codec::decode(&vec![]);
    assert_eq!(lines.len(), 0);
}

#[test]
fn deny_all_scenario_surfaces_denial_to_the_guest() {
    // The same module under an explicitly empty allowlist: the one request
    // is denied, and the denial is what the guest sees; a guest that treats
    // it as fatal aborts the run.
    let host = origin("https://example.test");
    let mut cap = HttpCapability::new(Some(vec![]), None);
    assert_eq!(cap.decide(&host), RequestDecision::DeniedByAllowlist);
}
