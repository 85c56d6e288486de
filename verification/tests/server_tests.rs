//! Scenario tests for the shutdown coordinator, the state container,
//! the request context and the CORS decisions.

use rapina::app::Rapina;
use rapina::context::ContextSource;
use rapina::cors::{AllowedOrigins, CorsConfig, CorsMiddleware, CorsResponse};
use rapina::router::HttpMethod;
use rapina::server::{Action, Coordinator, DrainStatus, Phase, Signal};
use rapina::state::AppState;

#[test]
fn test_shutdown_hooks_run_in_registration_order() {
    let mut c = Coordinator::new(2);
    assert_eq!(c.on_signal(Signal::Interrupt), Action::CloseListener);
    assert_eq!(c.poll_drain(false), DrainStatus::Drained);
    assert_eq!(c.phase, Phase::Stopped);
    // The hooks come out one at a time, strictly in registration order.
    let mut order = Vec::new();
    while let Some(k) = c.next_hook() {
        order.push(k);
    }
    assert_eq!(order, vec![0, 1]);
    assert_eq!(c.next_hook(), None);
}

#[test]
fn test_inflight_connection_survives_signal() {
    let mut c = Coordinator::new(0);
    let id = c.on_accept().unwrap();
    assert_eq!(id, 0);
    // The signal closes the listener but abandons nothing.
    assert_eq!(c.on_signal(Signal::Interrupt), Action::CloseListener);
    assert_eq!(c.phase, Phase::Draining);
    assert_eq!(c.inflight, vec![0]);
    // Draining waits while the connection runs and no timeout fired.
    assert_eq!(c.poll_drain(false), DrainStatus::StillDraining);
    assert_eq!(c.abandoned, 0);
    // Once the request completes, draining concludes.
    c.on_connection_closed(id);
    assert_eq!(c.poll_drain(false), DrainStatus::Drained);
    assert_eq!(c.phase, Phase::Stopped);
    assert_eq!(c.abandoned, 0);
}

#[test]
fn test_shutdown_timeout_enforced() {
    let mut c = Coordinator::new(0);
    let _hanging = c.on_accept().unwrap();
    c.on_signal(Signal::Interrupt);
    // The timeout wins the race: the server stops instead of waiting.
    assert_eq!(c.poll_drain(true), DrainStatus::TimedOut);
    assert_eq!(c.phase, Phase::Stopped);
    assert_eq!(c.abandoned, 1);
}

#[test]
fn test_sigterm_and_sigint_behave_identically() {
    let mut a = Coordinator::new(1);
    let mut b = Coordinator::new(1);
    a.on_accept().unwrap();
    b.on_accept().unwrap();
    let act_a = a.on_signal(Signal::Interrupt);
    let act_b = b.on_signal(Signal::Terminate);
    assert_eq!(act_a, act_b);
    assert_eq!(a.phase, b.phase);
    assert_eq!(a.inflight, b.inflight);
    assert_eq!(a.poll_drain(true), b.poll_drain(true));
    assert_eq!(a.next_hook(), b.next_hook());
}

#[test]
fn test_second_signal_is_ignored() {
    let mut c = Coordinator::new(0);
    assert_eq!(c.on_signal(Signal::Interrupt), Action::CloseListener);
    assert_eq!(c.on_signal(Signal::Terminate), Action::IgnoreEvent);
    assert_eq!(c.phase, Phase::Draining);
}

#[test]
fn test_no_accept_after_listener_closed() {
    let mut c = Coordinator::new(0);
    c.on_signal(Signal::Terminate);
    assert_eq!(c.on_accept(), None);
}

#[test]
fn test_unknown_connection_close_is_ignored() {
    let mut c = Coordinator::new(0);
    let id = c.on_accept().unwrap();
    c.on_connection_closed(99);
    assert_eq!(c.inflight, vec![id]);
}

#[test]
fn test_state_container_get_and_replace() {
    let s = AppState::new();
    assert_eq!(s.get(5), None);
    let s = s.with(5, 10);
    assert_eq!(s.get(5), Some(10));
    assert_eq!(s.get(6), None);
    // The last write under a key wins.
    let s = s.with(5, 20).with(6, 30);
    assert_eq!(s.get(5), Some(20));
    assert_eq!(s.get(6), Some(30));
}

#[test]
fn test_rapina_builder() {
    let app = Rapina::new().state(1, 100).state(2, 200).state(1, 111);
    assert_eq!(app.state.get(1), Some(111));
    assert_eq!(app.state.get(2), Some(200));
    let mut router = rapina::router::RouteTable::new();
    router.register(HttpMethod::Get, "/health", 7, None).unwrap();
    router.prepare();
    let app = app.router(router);
    assert_eq!(app.router.match_route(HttpMethod::Get, "/health").unwrap().handler, 7);
}

#[test]
fn test_request_context_ids_unique() {
    let mut src = ContextSource::new();
    let a = src.fresh();
    let b = src.fresh();
    let c = src.fresh();
    assert_eq!(a.id, 0);
    assert_eq!(b.id, 1);
    assert_eq!(c.id, 2);
    assert!(a.id != b.id && b.id != c.id && a.id != c.id);
}

fn header<'a>(r: &'a CorsResponse, name: &str) -> Option<&'a str> {
    r.headers.iter().find(|h| h.0 == name).map(|h| h.1.as_str())
}

#[test]
fn test_cors_permissive_preflight() {
    let mw = CorsMiddleware::new(CorsConfig::permissive());
    let r = mw.preflight_response(&Some("https://a.example".to_string()));
    assert_eq!(r.status, 204);
    assert_eq!(header(&r, "access-control-allow-origin"), Some("*"));
    assert_eq!(header(&r, "access-control-allow-methods"), Some("*"));
    assert_eq!(header(&r, "access-control-allow-headers"), Some("*"));
    assert_eq!(header(&r, "vary"), Some("Origin"));
}

#[test]
fn test_cors_with_origins_preflight() {
    let cfg = CorsConfig::with_origins(vec!["https://a.example".to_string()]);
    let mw = CorsMiddleware::new(cfg);
    let allowed = mw.preflight_response(&Some("https://a.example".to_string()));
    assert_eq!(header(&allowed, "access-control-allow-origin"), Some("https://a.example"));
    assert_eq!(
        header(&allowed, "access-control-allow-methods"),
        Some("GET, POST, PUT, PATCH, DELETE, OPTIONS")
    );
    assert_eq!(header(&allowed, "access-control-allow-headers"), Some("accept, authorization"));

    let refused = mw.preflight_response(&Some("https://evil.example".to_string()));
    assert_eq!(header(&refused, "access-control-allow-origin"), None);

    let missing = mw.preflight_response(&None);
    assert_eq!(header(&missing, "access-control-allow-origin"), None);
}

#[test]
fn test_cors_add_headers_replaces() {
    let mw = CorsMiddleware::new(CorsConfig::permissive());
    let mut resp = CorsResponse {
        status: 200,
        headers: vec![("vary".to_string(), "Accept".to_string())],
    };
    mw.add_cors_headers(&mut resp, &Some("https://a.example".to_string()));
    assert_eq!(resp.status, 200);
    assert_eq!(header(&resp, "access-control-allow-origin"), Some("*"));
    // The previous vary value was replaced, not duplicated.
    assert_eq!(resp.headers.iter().filter(|h| h.0 == "vary").count(), 1);
    assert_eq!(header(&resp, "vary"), Some("Origin"));
}

#[test]
fn test_cors_is_preflight() {
    assert!(rapina::cors::is_preflight(HttpMethod::Options));
    assert!(!rapina::cors::is_preflight(HttpMethod::Get));
}

#[test]
fn test_cors_handle_short_circuits_preflight() {
    let mw = CorsMiddleware::new(CorsConfig::permissive());
    match mw.handle_request(HttpMethod::Options, &None) {
        rapina::cors::CorsDecision::ShortCircuit(resp) => assert_eq!(resp.status, 204),
        rapina::cors::CorsDecision::Forward => panic!("preflight must not reach the router"),
    }
    assert!(matches!(
        mw.handle_request(HttpMethod::Get, &None),
        rapina::cors::CorsDecision::Forward
    ));
}

#[test]
fn test_cors_origin_matching_exact() {
    let cfg = CorsConfig::with_origins(vec![
        "https://a.example".to_string(),
        "https://b.example".to_string(),
    ]);
    match &cfg.allowed_origins {
        AllowedOrigins::Exact(os) => assert_eq!(os.len(), 2),
        AllowedOrigins::Any => panic!("expected exact origins"),
    }
}
