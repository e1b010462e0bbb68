use heprint::cli::{parse_args, CliAction};
use heprint::server::ServerConfig;

fn args(list: &[&str]) -> Vec<String> {
    list.iter().map(|s| s.to_string()).collect()
}

fn config(list: &[&str]) -> ServerConfig {
    match parse_args(&args(list)) {
        CliAction::Run(c) => c,
        other => panic!("unexpected action {other:?}"),
    }
}

#[test]
fn defaults_without_arguments() {
    let c = config(&["heprint.exe"]);
    assert_eq!(c.host, "127.0.0.1");
    assert_eq!(c.http_port, 18000);
    assert_eq!(c.max_concurrent, 4);
    let d = ServerConfig::default();
    assert_eq!((d.host.as_str(), d.http_port, d.max_concurrent), ("127.0.0.1", 18000, 4));
}

#[test]
fn options_set_port_host_and_workers() {
    let c = config(&["heprint.exe", "--port", "18001", "--host", "0.0.0.0", "--workers", "2"]);
    assert_eq!((c.host.as_str(), c.http_port, c.max_concurrent), ("0.0.0.0", 18001, 2));
    let c = config(&["heprint.exe", "--max-concurrent", "+8", "--port"]);
    assert_eq!((c.http_port, c.max_concurrent), (18000, 8));
}

#[test]
fn a_value_that_does_not_read_is_read_as_an_argument() {
    let c = config(&["heprint.exe", "--port", "70000", "--port", "x", "--workers", "-1"]);
    assert_eq!((c.http_port, c.max_concurrent), (18000, 4));
    assert!(matches!(parse_args(&args(&["heprint.exe", "--port", "--help"])), CliAction::Help));
}

#[test]
fn help_and_version_stop() {
    assert!(matches!(parse_args(&args(&["heprint.exe", "-h", "--port", "1"])), CliAction::Help));
    assert!(matches!(parse_args(&args(&["heprint.exe", "--version"])), CliAction::Version));
    assert!(matches!(parse_args(&args(&["heprint.exe", "extra", "-V"])), CliAction::Version));
    let c = config(&["-h"]);
    assert_eq!(c.http_port, 18000);
}
