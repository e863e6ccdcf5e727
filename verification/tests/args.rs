use course_chat::env_args::EnvArgs;
use course_chat::lecture09::{
    broadcast_from, peer_address_text as first_peer_text, server_address_text as first_server_text,
    EnvArgs as FirstEnvArgs,
};
use course_chat::lecture13::thiserror_personal::try_parse;
use course_chat::numbers::parse_ipv4;

fn args(list: &[&str]) -> Vec<String> {
    list.iter().map(|s| s.to_string()).collect()
}

#[test]
fn address_is_shown_as_host_and_port() {
    let a = EnvArgs {
        mode: "server".to_string(),
        host: [127, 0, 0, 1],
        port: 11111,
        log_level: tracing::Level::INFO,
    };
    assert!(a.is_server());
    assert_eq!(a.get_address(), "127.0.0.1:11111");
    let b = EnvArgs { mode: "client".to_string(), host: [10, 0, 0, 5], port: 42069, log_level: tracing::Level::DEBUG };
    assert!(!b.is_server());
    assert_eq!(b.get_address(), "10.0.0.5:42069");
}

#[test]
fn defaults_without_arguments() {
    let a = FirstEnvArgs::new(&args(&["prog"])).unwrap();
    assert_eq!(a.mode, "server");
    assert_eq!(a.host, [127, 0, 0, 1]);
    assert_eq!(a.port, 11111);
    assert!(a.is_server());
}

#[test]
fn client_with_host_and_port() {
    let a = FirstEnvArgs::new(&args(&["prog", "--client", "10.0.0.5", "42069", "ignored"])).unwrap();
    assert_eq!(a.mode, "client");
    assert!(!a.is_server());
    assert_eq!(a.host, [10, 0, 0, 5]);
    assert_eq!(a.port, 42069);
    assert_eq!(FirstEnvArgs::new(&args(&["prog", "-s"])).unwrap().mode, "server");
}

#[test]
fn invalid_mode() {
    assert_eq!(
        FirstEnvArgs::new(&args(&["prog", "--both"])).unwrap_err(),
        "Invalid mode '--both'. Allowed are: '--server (-s)' | '--client (-c)'."
    );
}

#[test]
fn invalid_host() {
    assert_eq!(
        FirstEnvArgs::new(&args(&["prog", "-c", "1.2.3"])).unwrap_err(),
        "invalid address '1.2.3'. Use proper IPv4 address."
    );
}

#[test]
fn invalid_port() {
    assert_eq!(
        FirstEnvArgs::new(&args(&["prog", "-c", "1.2.3.4", "70000"])).unwrap_err(),
        "invalid port '70000'. Use port between 65535 - 65535"
    );
}

#[test]
fn ipv4_parsing() {
    assert_eq!(parse_ipv4("0.0.0.0"), Some([0, 0, 0, 0]));
    assert_eq!(parse_ipv4("255.255.255.255"), Some([255, 255, 255, 255]));
    assert_eq!(parse_ipv4("10.0.0.58"), Some([10, 0, 0, 58]));
    for bad in ["01.2.3.4", "1.2.3", "1.2.3.4.", "256.1.1.1", "1..2.3", "a.b.c.d", "", "1.2.3.4 ", "+1.2.3.4", "0.00.0.0", "1.2.3.0004"] {
        assert_eq!(parse_ipv4(bad), None, "{bad}");
    }
}

#[test]
fn integer_parsing() {
    let port = |p: &str| FirstEnvArgs::new(&args(&["prog", "-s", "1.2.3.4", p])).map(|a| a.port);
    assert_eq!(port("+42"), Ok(42));
    assert!(port("-1").is_err());
    assert!(port("65536").is_err());
    assert_eq!(try_parse("-2147483648").ok(), Some(i32::MIN));
    assert!(try_parse(" 1").is_err());
    assert!(try_parse("").is_err());
}

#[test]
fn first_version_address_texts() {
    assert_eq!(first_peer_text(Some("1.2.3.4:5".to_string())), "1.2.3.4:5");
    assert_eq!(first_peer_text(None), "CLIENT ERROR: unable to show address");
    assert_eq!(first_server_text(None), "SERVER ERROR: unable to show address");
    broadcast_from("a".to_string(), vec!["b".to_string()]);
}

#[test]
fn shown_address_is_read_back() {
    for (host, port) in [([127, 0, 0, 1], 11111u16), ([0, 0, 0, 0], 0), ([255, 10, 0, 58], 65535)] {
        let a = EnvArgs {
            mode: "client".to_string(),
            host,
            port,
            log_level: tracing::Level::INFO,
        };
        let shown = a.get_address();
        let (h, p) = shown.split_once(':').unwrap();
        assert_eq!(parse_ipv4(h), Some(host));
        let read = FirstEnvArgs::new(&args(&["prog", "-c", h, p])).ok().unwrap();
        assert_eq!((read.host, read.port), (host, port));
    }
}
