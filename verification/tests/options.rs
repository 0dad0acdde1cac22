use snap_coin_node::options::{
    check_ports, parse_args, switch_given, value_index, Options, OptionsError, DEFAULT_API_PORT,
    DEFAULT_NODE_PATH, DEFAULT_NODE_PORT,
};

fn args(list: &[&str]) -> Vec<String> {
    list.iter().map(|s| s.to_string()).collect()
}

fn defaults() -> Options {
    Options {
        peers: Vec::new(),
        reserved_ips: Vec::new(),
        node_path: "./node-testnet".to_string(),
        api_port: 3003,
        node_port: 8998,
        start_api: true,
        no_ibd: false,
        no_auto_peer: false,
        headless: false,
        create_genesis: false,
        full_memory: false,
        debug: false,
    }
}

#[test]
fn default_values() {
    assert_eq!(DEFAULT_NODE_PATH, "./node-testnet");
    assert_eq!(DEFAULT_API_PORT, 3003);
    assert_eq!(DEFAULT_NODE_PORT, 8998);
}

#[test]
fn bare_command_line_gives_the_defaults() {
    assert_eq!(parse_args(&args(&["node"])), Ok(defaults()));
    assert_eq!(parse_args(&args(&[])), Ok(defaults()));
}

#[test]
fn every_option_at_once() {
    let line = args(&[
        "node",
        "--peers",
        "10.0.0.1:8998,seed.example:8998",
        "--reserved-ips",
        "10.0.0.1,10.0.0.2",
        "--node-path",
        "/var/lib/snap",
        "--node-port",
        "9000",
        "--api-port",
        "9001",
        "--no-api",
        "--no-ibd",
        "--no-auto-peer",
        "--headless",
        "--create-genesis",
        "--full-memory",
        "--debug",
    ]);
    let expected = Options {
        peers: args(&["10.0.0.1:8998", "seed.example:8998"]),
        reserved_ips: args(&["10.0.0.1", "10.0.0.2"]),
        node_path: "/var/lib/snap".to_string(),
        api_port: 9001,
        node_port: 9000,
        start_api: false,
        no_ibd: true,
        no_auto_peer: true,
        headless: true,
        create_genesis: true,
        full_memory: true,
        debug: true,
    };
    assert_eq!(parse_args(&line), Ok(expected));
}

#[test]
fn each_switch_sets_its_own_field() {
    let mut expected = defaults();
    expected.start_api = false;
    assert_eq!(parse_args(&args(&["node", "--no-api"])), Ok(expected));
    let mut expected = defaults();
    expected.no_ibd = true;
    assert_eq!(parse_args(&args(&["node", "--no-ibd"])), Ok(expected));
    let mut expected = defaults();
    expected.no_auto_peer = true;
    assert_eq!(parse_args(&args(&["node", "--no-auto-peer"])), Ok(expected));
    let mut expected = defaults();
    expected.headless = true;
    assert_eq!(parse_args(&args(&["node", "--headless"])), Ok(expected));
    let mut expected = defaults();
    expected.create_genesis = true;
    assert_eq!(parse_args(&args(&["node", "--create-genesis"])), Ok(expected));
    let mut expected = defaults();
    expected.full_memory = true;
    assert_eq!(parse_args(&args(&["node", "--full-memory"])), Ok(expected));
    let mut expected = defaults();
    expected.debug = true;
    assert_eq!(parse_args(&args(&["node", "--debug"])), Ok(expected));
}

#[test]
fn last_occurrence_of_an_option_wins() {
    let options = parse_args(&args(&[
        "node", "--node-port", "1", "--peers", "a", "--node-port", "2", "--peers", "b,c",
    ]))
    .unwrap();
    assert_eq!(options.node_port, 2);
    assert_eq!(options.peers, args(&["b", "c"]));
}

#[test]
fn option_without_a_value_is_ignored() {
    assert_eq!(parse_args(&args(&["node", "--peers"])), Ok(defaults()));
    assert_eq!(parse_args(&args(&["node", "--node-port"])), Ok(defaults()));
    assert_eq!(parse_args(&args(&["node", "--api-port"])), Ok(defaults()));
    let options = parse_args(&args(&["node", "--node-path", "/a", "--node-path"])).unwrap();
    assert_eq!(options.node_path, "/a");
}

#[test]
fn a_value_that_is_a_switch_counts_as_both() {
    let options = parse_args(&args(&["node", "--node-path", "--headless"])).unwrap();
    assert_eq!(options.node_path, "--headless");
    assert!(options.headless);
}

#[test]
fn a_value_that_names_an_option_takes_the_next_argument_too() {
    let options = parse_args(&args(&["node", "--node-path", "--peers", "x,y"])).unwrap();
    assert_eq!(options.node_path, "--peers");
    assert_eq!(options.peers, args(&["x", "y"]));
}

#[test]
fn program_name_is_read_like_any_argument() {
    let options = parse_args(&args(&["--headless"])).unwrap();
    assert!(options.headless);
    let options = parse_args(&args(&["--peers", "seed:1"])).unwrap();
    assert_eq!(options.peers, args(&["seed:1"]));
}

#[test]
fn empty_peer_list_is_one_empty_peer() {
    let options = parse_args(&args(&["node", "--peers", ""])).unwrap();
    assert_eq!(options.peers, vec![String::new()]);
}

#[test]
fn unknown_arguments_are_passed_over() {
    assert_eq!(parse_args(&args(&["node", "--verbose", "x", "-h", "--Headless", "--no-api "])), Ok(defaults()));
}

#[test]
fn invalid_api_port_is_refused() {
    assert_eq!(parse_args(&args(&["node", "--api-port", "http"])), Err(OptionsError::InvalidApiPort));
    assert_eq!(parse_args(&args(&["node", "--api-port", "65536"])), Err(OptionsError::InvalidApiPort));
    assert_eq!(parse_args(&args(&["node", "--api-port", ""])), Err(OptionsError::InvalidApiPort));
    assert_eq!(parse_args(&args(&["node", "--api-port", "--headless"])), Err(OptionsError::InvalidApiPort));
}

#[test]
fn invalid_node_port_is_refused() {
    assert_eq!(parse_args(&args(&["node", "--node-port", "-1"])), Err(OptionsError::InvalidNodePort));
    assert_eq!(parse_args(&args(&["node", "--node-port", "80", "--node-port", "x"])), Err(OptionsError::InvalidNodePort));
}

#[test]
fn invalid_port_is_refused_even_where_a_later_one_is_valid() {
    assert_eq!(
        parse_args(&args(&["node", "--api-port", "x", "--api-port", "80"])),
        Err(OptionsError::InvalidApiPort)
    );
}

#[test]
fn first_invalid_port_from_the_left_names_the_error() {
    assert_eq!(
        parse_args(&args(&["node", "--node-port", "x", "--api-port", "y"])),
        Err(OptionsError::InvalidNodePort)
    );
    assert_eq!(
        parse_args(&args(&["node", "--api-port", "y", "--node-port", "x"])),
        Err(OptionsError::InvalidApiPort)
    );
    assert_eq!(
        parse_args(&args(&["node", "--api-port", "--node-port", "x"])),
        Err(OptionsError::InvalidApiPort)
    );
}

#[test]
fn check_ports_accepts_valid_and_missing_values() {
    assert_eq!(check_ports(&args(&["node", "--api-port", "1", "--node-port", "+2"])), Ok(()));
    assert_eq!(check_ports(&args(&["node", "--api-port"])), Ok(()));
    assert_eq!(check_ports(&args(&["node", "--peers", "x"])), Ok(()));
    assert_eq!(check_ports(&args(&["node", "--node-port", "70000"])), Err(OptionsError::InvalidNodePort));
}

#[test]
fn switch_is_found_anywhere() {
    let line = args(&["--debug", "node", "--headless"]);
    assert!(switch_given(&line, "--debug"));
    assert!(switch_given(&line, "--headless"));
    assert!(switch_given(&line, "node"));
    assert!(!switch_given(&line, "--no-api"));
    assert!(!switch_given(&line, "--head"));
    assert!(!switch_given(&args(&[]), "--debug"));
}

#[test]
fn value_index_points_behind_the_last_occurrence() {
    let line = args(&["node", "--peers", "a", "--peers", "b", "--peers"]);
    assert_eq!(value_index(&line, "--peers"), Some(4));
    assert_eq!(value_index(&line, "--node-path"), None);
    assert_eq!(value_index(&args(&["--peers"]), "--peers"), None);
    assert_eq!(value_index(&args(&["--peers", "--peers"]), "--peers"), Some(1));
    assert_eq!(value_index(&args(&[]), "--peers"), None);
}
