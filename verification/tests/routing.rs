//! Scenario tests for route registration, preparation and matching.

use rapina::router::{HttpMethod, RouteTable, RouterError};

fn get(t: &RouteTable, path: &str) -> Option<u64> {
    t.match_route(HttpMethod::Get, path).map(|m| m.handler)
}

#[test]
fn test_basic_get_route() {
    let mut t = RouteTable::new();
    t.register(HttpMethod::Get, "/", 1, None).unwrap();
    t.prepare();
    assert_eq!(get(&t, "/"), Some(1));
}

#[test]
fn test_404_for_unknown_route() {
    let mut t = RouteTable::new();
    t.register(HttpMethod::Get, "/exists", 1, None).unwrap();
    t.prepare();
    assert_eq!(get(&t, "/does-not-exist"), None);
}

#[test]
fn test_method_not_matching() {
    let mut t = RouteTable::new();
    t.register(HttpMethod::Get, "/resource", 1, None).unwrap();
    t.prepare();
    assert_eq!(get(&t, "/resource"), Some(1));
    assert!(t.match_route(HttpMethod::Post, "/resource").is_none());
}

#[test]
fn test_path_parameter_extraction() {
    let mut t = RouteTable::new();
    t.register(HttpMethod::Get, "/users/:id", 1, None).unwrap();
    t.prepare();
    let m = t.match_route(HttpMethod::Get, "/users/42").unwrap();
    assert_eq!(m.handler, 1);
    assert_eq!(m.params, vec![("id".to_string(), "42".to_string())]);
}

#[test]
fn test_multiple_path_parameters() {
    let mut t = RouteTable::new();
    t.register(HttpMethod::Get, "/users/:user_id/posts/:post_id", 1, None).unwrap();
    t.prepare();
    let m = t.match_route(HttpMethod::Get, "/users/10/posts/20").unwrap();
    assert_eq!(
        m.params,
        vec![
            ("user_id".to_string(), "10".to_string()),
            ("post_id".to_string(), "20".to_string()),
        ]
    );
}

#[test]
fn test_multiple_routes() {
    let mut t = RouteTable::new();
    t.register(HttpMethod::Get, "/", 1, None).unwrap();
    t.register(HttpMethod::Get, "/about", 2, None).unwrap();
    t.register(HttpMethod::Get, "/contact", 3, None).unwrap();
    t.register(HttpMethod::Post, "/submit", 4, None).unwrap();
    t.prepare();
    assert_eq!(get(&t, "/"), Some(1));
    assert_eq!(get(&t, "/about"), Some(2));
    assert_eq!(get(&t, "/contact"), Some(3));
    assert_eq!(t.match_route(HttpMethod::Post, "/submit").unwrap().handler, 4);
}

#[test]
fn test_route_with_trailing_slash() {
    let mut t = RouteTable::new();
    t.register(HttpMethod::Get, "/users", 1, None).unwrap();
    t.prepare();
    assert_eq!(get(&t, "/users"), Some(1));
    // A trailing slash is a different route.
    assert_eq!(get(&t, "/users/"), None);
}

#[test]
fn test_trailing_slash_registered_separately() {
    let mut t = RouteTable::new();
    t.register(HttpMethod::Get, "/users", 1, None).unwrap();
    t.register(HttpMethod::Get, "/users/", 2, None).unwrap();
    t.prepare();
    assert_eq!(get(&t, "/users"), Some(1));
    assert_eq!(get(&t, "/users/"), Some(2));
}

#[test]
fn test_static_route_not_shadowed_by_parameterized() {
    // The parameterized route is registered before the static one;
    // preparation must still let the static route win.
    let mut t = RouteTable::new();
    t.register(HttpMethod::Get, "/users/:id", 1, None).unwrap();
    t.register(HttpMethod::Get, "/users/current", 2, None).unwrap();
    t.prepare();
    assert_eq!(get(&t, "/users/current"), Some(2));
    assert_eq!(get(&t, "/users/42"), Some(1));
}

#[test]
fn test_multi_level_param_specificity() {
    let mut t = RouteTable::new();
    t.register(HttpMethod::Get, "/users/:id/:action", 1, None).unwrap();
    t.register(HttpMethod::Get, "/users/:id/posts", 2, None).unwrap();
    t.prepare();
    assert_eq!(get(&t, "/users/5/posts"), Some(2));
    assert_eq!(get(&t, "/users/5/settings"), Some(1));
}

#[test]
fn test_different_methods_not_affected_by_sort() {
    let mut t = RouteTable::new();
    t.register(HttpMethod::Get, "/users/:id", 1, None).unwrap();
    t.register(HttpMethod::Post, "/users/current", 2, None).unwrap();
    t.prepare();
    // GET /users/current matches the parameter route: no static GET exists.
    assert_eq!(get(&t, "/users/current"), Some(1));
    // POST /users/current matches the static POST.
    assert_eq!(t.match_route(HttpMethod::Post, "/users/current").unwrap().handler, 2);
}

#[test]
fn test_root_level_param_does_not_shadow_static() {
    let mut t = RouteTable::new();
    t.register(HttpMethod::Get, "/:slug", 1, None).unwrap();
    t.register(HttpMethod::Get, "/about", 2, None).unwrap();
    t.prepare();
    assert_eq!(get(&t, "/about"), Some(2));
    assert_eq!(get(&t, "/anything-else"), Some(1));
}

#[test]
fn test_param_at_different_positions() {
    // The route with the earlier static segment wins where both match.
    let mut t = RouteTable::new();
    t.register(HttpMethod::Get, "/api/:version/users", 1, None).unwrap();
    t.register(HttpMethod::Get, "/api/v1/:resource", 2, None).unwrap();
    t.prepare();
    assert_eq!(get(&t, "/api/v1/users"), Some(2));
    assert_eq!(get(&t, "/api/v2/users"), Some(1));
}

#[test]
fn test_matching_is_deterministic() {
    let mut t = RouteTable::new();
    t.register(HttpMethod::Get, "/a/:x", 1, None).unwrap();
    t.register(HttpMethod::Get, "/a/b", 2, None).unwrap();
    t.register(HttpMethod::Get, "/:y/b", 3, None).unwrap();
    t.prepare();
    let first = get(&t, "/a/b");
    for _ in 0..100 {
        assert_eq!(get(&t, "/a/b"), first);
    }
    assert_eq!(first, Some(2));
}

#[test]
fn test_duplicate_param_name_rejected() {
    let mut t = RouteTable::new();
    let r = t.register(HttpMethod::Get, "/users/:id/:id", 1, None);
    assert_eq!(r, Err(RouterError::InvalidPattern));
}

#[test]
fn test_pattern_without_slash_rejected() {
    let mut t = RouteTable::new();
    let r = t.register(HttpMethod::Get, "users", 1, None);
    assert_eq!(r, Err(RouterError::InvalidPattern));
}

#[test]
fn test_register_after_prepare_rejected() {
    let mut t = RouteTable::new();
    t.register(HttpMethod::Get, "/users", 1, None).unwrap();
    t.prepare();
    let r = t.register(HttpMethod::Get, "/posts", 2, None);
    assert_eq!(r, Err(RouterError::InvalidPattern));
    // Preparation is idempotent: a second call changes nothing.
    t.prepare();
    assert_eq!(get(&t, "/users"), Some(1));
}

#[test]
fn test_static_match_is_case_sensitive() {
    let mut t = RouteTable::new();
    t.register(HttpMethod::Get, "/Users", 1, None).unwrap();
    t.prepare();
    assert_eq!(get(&t, "/Users"), Some(1));
    assert_eq!(get(&t, "/users"), None);
}

#[test]
fn test_named_route_registration() {
    let mut t = RouteTable::new();
    t.register(HttpMethod::Get, "/users", 1, Some("list_users".to_string())).unwrap();
    t.register(HttpMethod::Post, "/users", 2, Some("create_user".to_string())).unwrap();
    t.prepare();
    assert_eq!(get(&t, "/users"), Some(1));
    assert_eq!(t.match_route(HttpMethod::Post, "/users").unwrap().handler, 2);
}

#[test]
fn test_route_entries_list_named_routes() {
    let mut t = RouteTable::new();
    t.register(HttpMethod::Get, "/health", 1, Some("health_check".to_string())).unwrap();
    t.register(HttpMethod::Get, "/users", 2, Some("list_users".to_string())).unwrap();
    t.register(HttpMethod::Get, "/internal", 3, None).unwrap();
    t.prepare();
    let entries = t.route_entries();
    assert_eq!(entries.len(), 2);
    let paths: Vec<&str> = entries.iter().map(|e| e.path.as_str()).collect();
    assert!(paths.contains(&"/health"));
    assert!(paths.contains(&"/users"));
    for e in &entries {
        assert_eq!(e.method, "GET");
    }
    let named: Vec<&str> = entries.iter().map(|e| e.handler_name.as_str()).collect();
    assert!(named.contains(&"health_check"));
    assert!(named.contains(&"list_users"));
}
