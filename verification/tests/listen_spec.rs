use realm::{ConfigError, RelayConfig};

fn parse(s: &str) -> Result<RelayConfig, ConfigError> {
    realm::parse_listen_spec(s)
}

fn assert_endpoint(c: &RelayConfig, la: &str, lp: &str, ra: &str, rp: &str, proto: &str) {
    assert_eq!(c.listening_address, la);
    assert_eq!(c.listening_port, lp);
    assert_eq!(c.remote_address, ra);
    assert_eq!(c.remote_port, rp);
    assert_eq!(c.protocol, proto);
}

#[test]
fn parse_valid_tcp_spec() {
    let c = parse("tcp://1.2.3.4:8080/5.6.7.8:1080").unwrap();
    assert_endpoint(&c, "1.2.3.4", "8080", "5.6.7.8", "1080", "tcp");
}

#[test]
fn parse_valid_udp_spec() {
    let c = parse("udp://h1:1/h2:2").unwrap();
    assert_endpoint(&c, "h1", "1", "h2", "2", "udp");
}

#[test]
fn protocol_is_case_insensitive_and_stored_lowercase() {
    let c = parse("TCP://h1:1/h2:2").unwrap();
    assert_eq!(c.protocol, "tcp");
    let c = parse("UdP://h1:1/h2:2").unwrap();
    assert_eq!(c.protocol, "udp");
}

#[test]
fn empty_bind_host_becomes_wildcard() {
    let c = parse("tcp://:8080/127.0.0.1:1080").unwrap();
    assert_endpoint(&c, "0.0.0.0", "8080", "127.0.0.1", "1080", "tcp");
}

#[test]
fn spec_without_protocol_parses_the_same_way() {
    let c = parse(":8080/127.0.0.1:1080").unwrap();
    assert_endpoint(&c, "0.0.0.0", "8080", "127.0.0.1", "1080", "");
}

#[test]
fn host_may_contain_colons_split_is_on_the_last() {
    let c = parse("tcp://fe80::1:8080/::1:9090").unwrap();
    assert_endpoint(&c, "fe80::1", "8080", "::1", "9090", "tcp");
}

#[test]
fn unknown_protocol_is_rejected() {
    assert_eq!(parse("http://h1:1/h2:2").err(), Some(ConfigError::InvalidProtocol));
}

#[test]
fn spec_without_slash_is_malformed() {
    assert_eq!(parse("tcp://bad").err(), Some(ConfigError::MalformedListenSpec));
}

#[test]
fn part_without_colon_is_a_malformed_address() {
    assert_eq!(parse("tcp://nocolon/h2:2").err(), Some(ConfigError::MalformedAddress));
    assert_eq!(parse("tcp://h1:1/nocolon").err(), Some(ConfigError::MalformedAddress));
}

#[test]
fn round_trip_of_a_parsed_spec() {
    let c = parse("tcp://1.2.3.4:8080/5.6.7.8:1080").unwrap();
    let text = c.to_listen_spec();
    assert_eq!(text, "tcp://1.2.3.4:8080/5.6.7.8:1080");
    let again = parse(&text).unwrap();
    assert_endpoint(
        &again,
        &c.listening_address,
        &c.listening_port,
        &c.remote_address,
        &c.remote_port,
        &c.protocol,
    );
}

#[test]
fn round_trip_without_protocol() {
    let c = parse("host:1/other:2").unwrap();
    let text = c.to_listen_spec();
    assert_eq!(text, "host:1/other:2");
    let again = parse(&text).unwrap();
    assert_endpoint(&again, "host", "1", "other", "2", "");
}

#[test]
fn render_of_a_built_endpoint() {
    let c = RelayConfig::new(
        String::from("a"),
        String::from("1"),
        String::from("b"),
        String::from("2"),
    );
    assert_eq!(c.protocol, "");
    assert_eq!(c.to_listen_spec(), "a:1/b:2");
}

#[test]
fn default_endpoint() {
    let c = RelayConfig::default();
    assert_endpoint(&c, "0.0.0.0", "1080", "127.0.0.1", "8080", "");
}

#[test]
fn error_messages_are_not_empty() {
    assert!(!ConfigError::InvalidProtocol.message().is_empty());
    assert!(!ConfigError::PortRangeDescending.message().is_empty());
    assert!(!ConfigError::MissingListenSource.message().is_empty());
}
