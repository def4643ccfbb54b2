use brachyura::routing::{match_backend, round_robin_select, router, validate_backends};
use brachyura::{Backend, ProxyState};

fn single(name: &str, location: &str) -> Backend {
    Backend {
        name: Some(name.to_string()),
        location: Some(location.to_string()),
        backend_type: None,
        locations: None,
    }
}

fn loadbalanced(name: &str, locations: &[&str]) -> Backend {
    Backend {
        name: Some(name.to_string()),
        location: None,
        backend_type: Some("loadbalanced".to_string()),
        locations: Some(locations.iter().map(|l| l.to_string()).collect()),
    }
}

fn test_registry() -> Vec<Backend> {
    vec![
        single("test.home", "127.0.0.1:8000"),
        loadbalanced("test-lb2.home", &["127.0.0.1:8000", "127.0.0.1:8001"]),
        loadbalanced("test-lb.home", &["127.0.0.1:8000", "127.0.0.1:8001"]),
    ]
}

#[test]
fn test_router_single_backend() {
    let config = test_registry();
    let mut proxy_state = ProxyState::new(&config);
    let backend = router(&config, &mut proxy_state, "test.home");
    assert_eq!(backend.unwrap(), "127.0.0.1:8000")
}

#[test]
fn test_router_loadbalanced_backend() {
    let config = test_registry();
    let mut proxy_state = ProxyState::new(&config);
    let backend = router(&config, &mut proxy_state, "test-lb.home");
    assert_eq!(backend.unwrap(), "127.0.0.1:8000")
}

#[test]
fn test_round_robin_select() {
    let config = test_registry();
    let mut proxy_mut_state = ProxyState::new(&config).backends;
    let backend_name = String::from("test-lb2.home");
    let entry = proxy_mut_state
        .iter_mut()
        .find(|e| e.name == backend_name)
        .unwrap();
    let backend_state = entry.state.as_mut().unwrap();
    let backend_locations = config[1].locations.as_ref().unwrap();

    let first_backend = round_robin_select(backend_locations, backend_state).unwrap();
    assert_eq!(first_backend, String::from("127.0.0.1:8000"));
    let second_backend = round_robin_select(backend_locations, backend_state).unwrap();
    assert_eq!(second_backend, String::from("127.0.0.1:8001"));
    let third_backend = round_robin_select(backend_locations, backend_state).unwrap();
    assert_eq!(third_backend, String::from("127.0.0.1:8000"));
    let fourth_backend = round_robin_select(backend_locations, backend_state).unwrap();
    assert_eq!(fourth_backend, String::from("127.0.0.1:8001"));
    let fifth_backend = round_robin_select(backend_locations, backend_state).unwrap();
    assert_eq!(fifth_backend, String::from("127.0.0.1:8000"));
}

#[test]
fn router_cycles_through_lb_locations() {
    let config = test_registry();
    let mut proxy_state = ProxyState::new(&config);
    let picks: Vec<String> = (0..5)
        .map(|_| router(&config, &mut proxy_state, "test-lb.home").unwrap())
        .collect();
    assert_eq!(
        picks,
        vec![
            "127.0.0.1:8000",
            "127.0.0.1:8001",
            "127.0.0.1:8000",
            "127.0.0.1:8001",
            "127.0.0.1:8000",
        ]
    );
}

#[test]
fn router_unknown_host_is_no_match() {
    let config = test_registry();
    let mut proxy_state = ProxyState::new(&config);
    assert!(router(&config, &mut proxy_state, "unknown.home").is_none());
}

#[test]
fn router_first_match_wins() {
    let config = vec![
        single("dup.home", "127.0.0.1:9000"),
        single("dup.home", "127.0.0.1:9001"),
    ];
    let mut proxy_state = ProxyState::new(&config);
    assert_eq!(
        router(&config, &mut proxy_state, "dup.home").unwrap(),
        "127.0.0.1:9000"
    );
}

#[test]
fn router_incomplete_declaration_is_no_match() {
    let bare = Backend {
        name: Some("bare.home".to_string()),
        location: None,
        backend_type: None,
        locations: None,
    };
    let config = vec![bare];
    let mut proxy_state = ProxyState::new(&config);
    assert!(router(&config, &mut proxy_state, "bare.home").is_none());
}

#[test]
fn match_backend_finds_first_by_name() {
    let config = test_registry();
    let found = match_backend(&config, "test-lb.home").unwrap();
    assert_eq!(found.name.as_deref(), Some("test-lb.home"));
    assert!(match_backend(&config, "nope").is_none());
}

#[test]
fn validate_backends_accepts_complete_registry() {
    assert!(validate_backends(&test_registry()).is_ok());
}

#[test]
fn validate_backends_names_offender() {
    let mut config = test_registry();
    config.push(Backend {
        name: Some("broken.home".to_string()),
        location: None,
        backend_type: None,
        locations: None,
    });
    let err = validate_backends(&config).unwrap_err();
    assert_eq!(err, "Invalid backend configuration: broken.home");
}

#[test]
fn validate_backends_rejects_empty_lb_locations() {
    let config = vec![loadbalanced("empty-lb.home", &[])];
    assert!(validate_backends(&config).is_err());
}

#[test]
fn router_empty_lb_locations_is_no_match() {
    let config = vec![loadbalanced("empty-lb.home", &[])];
    let mut proxy_state = ProxyState::new(&config);
    assert!(router(&config, &mut proxy_state, "empty-lb.home").is_none());
}
