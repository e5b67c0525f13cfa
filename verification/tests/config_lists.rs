use realm::{Cli, ConfigError, ConfigFile};

fn strings(xs: &[&str]) -> Vec<String> {
    let mut v = Vec::new();
    for x in xs {
        v.push(String::from(*x));
    }
    v
}

fn file(la: &[&str], lp: &[&str], ra: &[&str], rp: &[&str]) -> ConfigFile {
    ConfigFile {
        listening_addresses: strings(la),
        listening_ports: strings(lp),
        remote_addresses: strings(ra),
        remote_ports: strings(rp),
    }
}

#[test]
fn single_port_token_expands_to_itself() {
    assert_eq!(realm::ports2individuals(strings(&["80"])).unwrap(), vec![80u16]);
}

#[test]
fn range_expands_inclusive_and_in_order() {
    let v = realm::ports2individuals(strings(&["8000-8002"])).unwrap();
    assert_eq!(v, vec![8000u16, 8001, 8002]);
}

#[test]
fn tokens_flatten_in_source_order_without_dedup() {
    let v = realm::ports2individuals(strings(&["9090", "80-82", "80"])).unwrap();
    assert_eq!(v, vec![9090u16, 80, 81, 82, 80]);
}

#[test]
fn descending_range_is_rejected() {
    assert_eq!(
        realm::ports2individuals(strings(&["9-5"])).err(),
        Some(ConfigError::PortRangeDescending)
    );
}

#[test]
fn non_numeric_range_is_rejected() {
    assert_eq!(
        realm::ports2individuals(strings(&["a-b"])).err(),
        Some(ConfigError::InvalidPortRange)
    );
}

#[test]
fn double_dash_is_rejected() {
    assert_eq!(
        realm::ports2individuals(strings(&["1-2-3"])).err(),
        Some(ConfigError::InvalidPortRange)
    );
}

#[test]
fn out_of_range_port_is_rejected() {
    assert_eq!(
        realm::ports2individuals(strings(&["65536"])).err(),
        Some(ConfigError::InvalidPortRange)
    );
    assert_eq!(
        realm::ports2individuals(strings(&[""])).err(),
        Some(ConfigError::InvalidPortRange)
    );
}

#[test]
fn expansion_is_fail_fast() {
    assert_eq!(
        realm::ports2individuals(strings(&["80", "9-5", "a-b"])).err(),
        Some(ConfigError::PortRangeDescending)
    );
}

#[test]
fn boundary_ports_survive_expansion() {
    let v = realm::ports2individuals(strings(&["0-1", "65535"])).unwrap();
    assert_eq!(v, vec![0u16, 1, 65535]);
}

#[test]
fn aligner_broadcasts_singleton_lists() {
    let la = strings(&["0.0.0.0"]);
    let lp: Vec<u16> = vec![80, 81, 82];
    let ra = strings(&["1.2.3.4"]);
    let rp: Vec<u16> = vec![8080];
    let v = realm::align_lists(&la, &lp, &ra, &rp).unwrap();
    assert_eq!(v.len(), 3);
    let expected_ports = ["80", "81", "82"];
    for (i, c) in v.iter().enumerate() {
        assert_eq!(c.listening_address, "0.0.0.0");
        assert_eq!(c.listening_port, expected_ports[i]);
        assert_eq!(c.remote_address, "1.2.3.4");
        assert_eq!(c.remote_port, "8080");
        assert_eq!(c.protocol, "");
    }
}

#[test]
fn aligner_uses_per_index_values_when_present() {
    let la = strings(&["a", "b"]);
    let lp: Vec<u16> = vec![1, 2];
    let ra = strings(&["x", "y"]);
    let rp: Vec<u16> = vec![10, 20];
    let v = realm::align_lists(&la, &lp, &ra, &rp).unwrap();
    assert_eq!(v.len(), 2);
    assert_eq!(v[1].listening_address, "b");
    assert_eq!(v[1].listening_port, "2");
    assert_eq!(v[1].remote_address, "y");
    assert_eq!(v[1].remote_port, "20");
}

#[test]
fn load_config_expands_then_aligns() {
    let v = realm::load_config(file(&["0.0.0.0"], &["80-82"], &["1.2.3.4"], &["8080"])).unwrap();
    assert_eq!(v.len(), 3);
    assert_eq!(v[0].listening_port, "80");
    assert_eq!(v[2].listening_port, "82");
    assert_eq!(v[2].remote_port, "8080");
}

#[test]
fn each_empty_list_is_rejected() {
    let e = |f: ConfigFile| realm::load_config(f).err();
    assert_eq!(
        e(file(&[], &["80"], &["r"], &["81"])),
        Some(ConfigError::EmptyConfigList)
    );
    assert_eq!(
        e(file(&["l"], &[], &["r"], &["81"])),
        Some(ConfigError::EmptyConfigList)
    );
    assert_eq!(
        e(file(&["l"], &["80"], &[], &["81"])),
        Some(ConfigError::EmptyConfigList)
    );
    assert_eq!(
        e(file(&["l"], &["80"], &["r"], &[])),
        Some(ConfigError::EmptyConfigList)
    );
}

#[test]
fn bad_port_token_wins_over_empty_address_list() {
    assert_eq!(
        realm::load_config(file(&[], &["x"], &["r"], &["81"])).err(),
        Some(ConfigError::InvalidPortRange)
    );
}

#[test]
fn conflicting_sources_are_rejected_before_parsing() {
    let cli = Cli {
        listen: Some(strings(&["tcp://:1/h:2"])),
        config_file: Some(String::from("relay.json")),
    };
    let f = file(&["l"], &["80"], &["r"], &["81"]);
    assert_eq!(
        realm::parse_arguments(cli, Some(f)).err(),
        Some(ConfigError::ConflictingListenSources)
    );
}

#[test]
fn missing_source_is_rejected() {
    let cli = Cli { listen: None, config_file: None };
    assert_eq!(
        realm::parse_arguments(cli, None).err(),
        Some(ConfigError::MissingListenSource)
    );
    let cli = Cli { listen: Some(Vec::new()), config_file: None };
    assert_eq!(
        realm::parse_arguments(cli, None).err(),
        Some(ConfigError::MissingListenSource)
    );
}

#[test]
fn unreadable_config_file_is_reported() {
    let cli = Cli { listen: None, config_file: Some(String::from("relay.json")) };
    assert_eq!(
        realm::parse_arguments(cli, None).err(),
        Some(ConfigError::FileReadError)
    );
}

#[test]
fn arguments_route_to_listen_specs() {
    let cli = Cli {
        listen: Some(strings(&["tcp://:8080/127.0.0.1:1080", "udp://h:1/r:2"])),
        config_file: None,
    };
    let v = realm::parse_arguments(cli, None).unwrap();
    assert_eq!(v.len(), 2);
    assert_eq!(v[0].listening_address, "0.0.0.0");
    assert_eq!(v[0].protocol, "tcp");
    assert_eq!(v[1].protocol, "udp");
}

#[test]
fn listen_spec_parsing_is_fail_fast() {
    let cli = Cli {
        listen: Some(strings(&["tcp://:8080/127.0.0.1:1080", "tcp://bad"])),
        config_file: None,
    };
    assert_eq!(
        realm::parse_arguments(cli, None).err(),
        Some(ConfigError::MalformedListenSpec)
    );
}

#[test]
fn arguments_route_to_config_file() {
    let cli = Cli { listen: None, config_file: Some(String::from("relay.json")) };
    let f = file(&["0.0.0.0"], &["80-81"], &["1.2.3.4"], &["8080"]);
    let v = realm::parse_arguments(cli, Some(f)).unwrap();
    assert_eq!(v.len(), 2);
    assert_eq!(v[1].listening_port, "81");
}
