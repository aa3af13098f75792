//! Where the configuration is looked for and what overrides it.
use par6d::options::{
    config_candidates, empty_keys, resolve_config_path, status_transport, valid_parent, Candidate,
    StatusTransport, Variable,
};

fn there(path: &str, exists: bool) -> Candidate {
    Candidate {
        path: path.to_owned(),
        exists,
    }
}

#[test]
fn a_configuration_is_looked_for_in_order() {
    assert_eq!(
        config_candidates(Some("/c.toml"), Some("/repo/target/debug")),
        [
            "/c.toml",
            "config/PAR6.toml",
            "/repo/target/debug/../../config/PAR6.toml",
            "/repo/target/debug/../../../config/PAR6.toml",
            "/etc/par6/PAR6.toml",
        ]
    );
    assert_eq!(
        config_candidates(None, None),
        ["config/PAR6.toml", "/etc/par6/PAR6.toml"]
    );
    assert_eq!(
        config_candidates(None, Some("/"))[1],
        "/../../config/PAR6.toml"
    );
}

#[test]
fn the_first_configuration_that_is_there_is_taken() {
    let candidates = vec![there("a", false), there("b", true), there("c", true)];
    assert_eq!(resolve_config_path(None, &candidates), Ok("b".to_owned()));
    assert_eq!(
        resolve_config_path(None, &vec![there("a", false), there("b", false)]),
        Err("no robot config found; set --config or PAR6_CONFIG (tried: a, b)".to_owned())
    );
}

#[test]
fn a_configuration_that_was_named_is_not_looked_for_elsewhere() {
    let candidates = vec![there("b", true)];
    assert_eq!(
        resolve_config_path(Some(there("x", true)), &candidates),
        Ok("x".to_owned())
    );
    assert_eq!(
        resolve_config_path(Some(there("x", false)), &candidates),
        Err("config file not found: x".to_owned())
    );
}

#[test]
fn variables_set_to_nothing_count_as_not_set() {
    let var = |key: &str, value: &str| Variable {
        key: key.to_owned(),
        value: value.to_owned(),
    };
    let vars = [
        var("PAR6_BIND", ""),
        var("PAR6_CONFIG", "/c.toml"),
        var("HOME", ""),
        var("PAR6_STATUS_HOST", ""),
    ];
    assert_eq!(empty_keys(&vars), ["PAR6_BIND", "PAR6_STATUS_HOST"]);
}

#[test]
fn the_transport_ladder_has_exactly_three_modes() {
    assert_eq!(status_transport("auto"), Some(StatusTransport::Auto));
    assert_eq!(
        status_transport("multicast"),
        Some(StatusTransport::Multicast)
    );
    assert_eq!(status_transport("unicast"), Some(StatusTransport::Unicast));
    assert_eq!(status_transport("carrier-pigeon"), None);
    assert_eq!(status_transport("Auto"), None);
    assert!(valid_parent(42));
    assert!(!valid_parent(0), "pid 0 is not a process to follow");
}
