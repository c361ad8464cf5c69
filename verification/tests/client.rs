use kotatsu_realtime::client::{
    encoded_pos, endpoint_from_parts, parse_config_from, parse_u16, parse_usize, udp_endpoint, usage,
    Config, ConfigError, ConfigOutcome, EndpointError, EnvSettings, DEFAULT_API_PORT, DEFAULT_HOST,
    DEFAULT_SAMPLES, DEFAULT_UDP_PORT, PROBE_SEQ_MAX,
};
use kotatsu_realtime::numbers::parse_bounded;
use kotatsu_realtime::protocol::{parse_datagram, PKT_UNRELIABLE};

fn no_env() -> EnvSettings {
    EnvSettings {
        remote_host: None,
        remote_ip: None,
        api_port: None,
        udp_port: None,
        quic_port: None,
        rtt_samples: None,
        api_base_url: None,
        udp_override_url: None,
        quic_override_url: None,
    }
}

fn args(items: &[&str]) -> Vec<String> {
    items.iter().map(|s| s.to_string()).collect()
}

fn run(e: &EnvSettings, items: &[&str]) -> Config {
    match parse_config_from(e, &args(items)).expect("settings should parse") {
        ConfigOutcome::Run(c) => c,
        ConfigOutcome::Help(h) => panic!("unexpected help: {h}"),
    }
}

fn expected_usage(program: &str) -> String {
    format!(
        "Usage: {program} [options]\n\
         \n\
         Measures post-connect UDP datagram one-way latency over\n\
         client A -> server -> client B.\n\
         \n\
         Options:\n\
           --host <host>            Remote hostname (default: {DEFAULT_HOST})\n\
           --remote-ip <ip>         Use this IP for API/UDP instead of resolving the host\n\
           --api-port <port>        HTTP API port (default: {DEFAULT_API_PORT})\n\
           --udp-port <port>        UDP port (default: {DEFAULT_UDP_PORT})\n\
           --samples <count>        Number of datagram samples (default: {DEFAULT_SAMPLES})\n\
           --api-base-url <url>     Override the full HTTP API base URL\n\
           --udp-url <url>          Override the full UDP URL\n\
           -h, --help               Show this help\n\
         \n\
         Environment fallback:\n\
           REMOTE_HOST, REMOTE_IP, API_PORT, UDP_PORT, RTT_SAMPLES,\n\
           API_BASE_URL, UDP_OVERRIDE_URL\n"
    )
}

#[test]
fn usage_matches_the_formatted_help_text() {
    assert_eq!(usage("remote-rtt"), expected_usage("remote-rtt"));
    assert_eq!(usage("./bin/x"), expected_usage("./bin/x"));
}

#[test]
fn defaults_apply_without_environment_or_options() {
    let c = run(&no_env(), &["remote-rtt"]);
    assert_eq!(c.remote_host, DEFAULT_HOST);
    assert_eq!(c.remote_ip, None);
    assert_eq!(c.api_port, 8080);
    assert_eq!(c.udp_port, 4433);
    assert_eq!(c.samples, 10);
    assert_eq!(c.api_base(), "http://kotatsu.ruxel.net:8080");
    assert_eq!(c.udp_override(), "udp://kotatsu.ruxel.net:4433");
    let empty = run(&no_env(), &[]);
    assert_eq!(empty.samples, DEFAULT_SAMPLES);
}

#[test]
fn environment_fills_in_and_options_override_it() {
    let mut e = no_env();
    e.remote_host = Some("env.example".into());
    e.remote_ip = Some("".into());
    e.api_port = Some("9000".into());
    e.quic_port = Some("5000".into());
    e.rtt_samples = Some("0".into());
    e.api_base_url = Some("".into());
    e.quic_override_url = Some("udp://q:1".into());
    let c = run(&e, &["p"]);
    assert_eq!(c.remote_host, "env.example");
    assert_eq!(c.remote_ip, None);
    assert_eq!(c.api_port, 9000);
    assert_eq!(c.udp_port, 5000);
    assert_eq!(c.samples, DEFAULT_SAMPLES);
    assert_eq!(c.api_base_url, None);
    assert_eq!(c.udp_override(), "udp://q:1");

    let c = run(&e, &["p", "--host", "cli.example", "--remote-ip", "10.1.2.3", "--api-port", "81", "--udp-port",
        "+82", "--samples", "3", "--udp-url", "udp://z:9"]);
    assert_eq!(c.remote_host, "cli.example");
    assert_eq!(c.api_port, 81);
    assert_eq!(c.udp_port, 82);
    assert_eq!(c.samples, 3);
    assert_eq!(c.api_base(), "http://10.1.2.3:81");
    assert_eq!(c.udp_override(), "udp://z:9");
    let c = run(&no_env(), &["p", "--quic-port", "7", "--api-base-url", "https://api/", "--quic-url", "udp://w:2"]);
    assert_eq!(c.udp_port, 7);
    assert_eq!(c.api_base(), "https://api/");
    assert_eq!(c.udp_override(), "udp://w:2");
}

#[test]
fn help_and_errors_are_reported() {
    match parse_config_from(&no_env(), &args(&["tool", "--samples", "2", "-h"])).unwrap() {
        ConfigOutcome::Help(h) => assert_eq!(h, expected_usage("tool")),
        ConfigOutcome::Run(_) => panic!("help expected"),
    }
    assert!(matches!(parse_config_from(&no_env(), &args(&["tool", "--help"])).unwrap(), ConfigOutcome::Help(_)));

    let e = parse_config_from(&no_env(), &args(&["tool", "--samples", "0"])).unwrap_err();
    assert!(matches!(e, ConfigError::ZeroSamples));
    assert_eq!(e.message(), "--samples must be greater than 0");

    let e = parse_config_from(&no_env(), &args(&["tool", "--api-port"])).unwrap_err();
    assert_eq!(e.message(), "missing value for --api-port");

    let e = parse_config_from(&no_env(), &args(&["tool", "--udp-port", "70000"])).unwrap_err();
    assert_eq!(e.message(), "failed to parse --udp-port as u16");

    let e = parse_config_from(&no_env(), &args(&["tool", "--bogus"])).unwrap_err();
    assert_eq!(e.message(), format!("unknown argument: --bogus\n\n{}", expected_usage("tool")));

    let mut env = no_env();
    env.api_port = Some("x1".into());
    env.rtt_samples = Some("nope".into());
    let e = parse_config_from(&env, &args(&["tool"])).unwrap_err();
    assert_eq!(e.message(), "failed to parse API_PORT as u16");
    env.api_port = None;
    let e = parse_config_from(&env, &args(&["tool"])).unwrap_err();
    assert_eq!(e.message(), "failed to parse RTT_SAMPLES as usize");
}

#[test]
fn numbers_parse_like_str_parse() {
    assert_eq!(parse_u16("65535", "f").unwrap(), 65535);
    assert!(parse_u16("65536", "f").is_err());
    assert!(parse_u16("", "f").is_err());
    assert!(parse_u16("+", "f").is_err());
    assert!(parse_u16("-1", "f").is_err());
    assert!(parse_u16(" 1", "f").is_err());
    assert_eq!(parse_u16("+0012", "f").unwrap(), 12);
    assert_eq!(parse_usize("18446744073709551615", "f").unwrap() as u64, u64::MAX);
    for text in ["0", "7", "123", "+9", "00", "x", "1x", "", "99999999999999999999"] {
        assert_eq!(parse_bounded(text, u64::MAX), text.parse::<u64>().ok(), "{text}");
    }
    assert_eq!(parse_bounded("300", 255), None);
    assert_eq!(parse_bounded("255", 255), Some(255));
}

#[test]
fn probe_datagram_is_the_json_position_after_the_type_byte() {
    for seq in [0u64, 1, 42, 100, 65_536, PROBE_SEQ_MAX] {
        let packet = encoded_pos(seq);
        assert_eq!(packet[0], PKT_UNRELIABLE);
        let text = format!("{{\"t\":\"pos\",\"seq\":{seq},\"x\":{seq}.0,\"y\":0.0,\"vx\":0.0,\"vy\":0.0}}");
        assert_eq!(&packet[1..], text.as_bytes());
        let value: serde_json::Value = serde_json::from_slice(&packet[1..]).unwrap();
        assert_eq!(value["t"], "pos");
        assert_eq!(value["seq"].as_u64(), Some(seq));
        let x = seq as f32;
        assert_eq!(value["x"].as_f64(), Some(f64::from(x)));
        assert_eq!(serde_json::to_string(&serde_json::Value::from(x)).unwrap(), format!("{seq}.0"));
        assert_eq!(value["vy"].as_f64(), Some(0.0));
        let payload = parse_datagram(&packet).unwrap();
        assert_eq!(payload, text.into_bytes());
    }
}

#[test]
fn udp_endpoint_needs_a_host_and_a_port() {
    assert_eq!(udp_endpoint("udp://127.0.0.1:4433"), Ok(("127.0.0.1".to_string(), 4433)));
    assert_eq!(udp_endpoint("udp://example.org:9"), Ok(("example.org".to_string(), 9)));
    assert_eq!(udp_endpoint("udp://host"), Err(EndpointError::PortMissing));
    assert_eq!(udp_endpoint("http://host/"), Err(EndpointError::PortMissing));
    assert_eq!(udp_endpoint("udp:opaque"), Err(EndpointError::HostMissing));
    assert_eq!(udp_endpoint("not a url"), Err(EndpointError::BadUrl));
    assert_eq!(EndpointError::BadUrl.message(), "parse udp_url");
    assert_eq!(EndpointError::HostMissing.message(), "udp_url host missing");
    assert_eq!(EndpointError::PortMissing.message(), "udp_url port missing");
    assert_eq!(endpoint_from_parts(Some((Some("h".into()), Some(1)))), Ok(("h".to_string(), 1)));
    assert_eq!(endpoint_from_parts(None), Err(EndpointError::BadUrl));
    assert_eq!(endpoint_from_parts(Some((None, Some(1)))), Err(EndpointError::HostMissing));
}
