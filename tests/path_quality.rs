use wifi_diag::network::{parse_dns_servers, parse_ping_output, parse_query_time, parse_router_ip, DnsInfo, PingResult};
use wifi_diag::num::Decimal;

fn as_f64(d: Decimal) -> f64 {
    d.mantissa as f64 / 10f64.powi(d.scale as i32)
}

#[test]
fn test_parse_ping_output() {
    let sample = r#"
PING 1.1.1.1 (1.1.1.1): 56 data bytes
64 bytes from 1.1.1.1: icmp_seq=0 ttl=55 time=12.345 ms
64 bytes from 1.1.1.1: icmp_seq=1 ttl=55 time=14.567 ms
64 bytes from 1.1.1.1: icmp_seq=2 ttl=55 time=11.234 ms

--- 1.1.1.1 ping statistics ---
3 packets transmitted, 3 packets received, 0.0% packet loss
round-trip min/avg/max/stddev = 11.234/12.715/14.567/1.234 ms
"#;

    let result = parse_ping_output(sample);
    assert!((as_f64(result.latency_ms.unwrap()) - 12.715).abs() < 0.001);
    assert!((as_f64(result.jitter_ms.unwrap()) - 1.234).abs() < 0.001);
    assert!((as_f64(result.packet_loss_percent.unwrap()) - 0.0).abs() < 0.001);
    assert_eq!(result.latency_ms, Some(Decimal::new(12715, 3)));
    assert_eq!(result.jitter_ms, Some(Decimal::new(1234, 3)));
    assert_eq!(result.packet_loss_percent, Some(Decimal::new(0, 1)));
}

#[test]
fn test_parse_dns_servers() {
    let sample = r#"
DNS configuration

resolver #1
  nameserver[0] : 192.168.1.1
  nameserver[1] : 8.8.8.8
  if_index : 6 (en0)
  flags    : Request A records

resolver #2
  nameserver[0] : 192.168.1.1
  flags    : Request A records
"#;

    let servers = parse_dns_servers(sample);
    assert_eq!(servers.len(), 2);
    assert_eq!(servers[0], "192.168.1.1");
    assert_eq!(servers[1], "8.8.8.8");
}

#[test]
fn dns_servers_keep_first_seen_order() {
    let sample = "nameserver[0] : 10.0.0.1\nnameserver[1] : 10.0.0.2\nnameserver[0]: 10.0.0.1\nnameserver[3]:10.0.0.3\n";
    assert_eq!(parse_dns_servers(sample), vec!["10.0.0.1", "10.0.0.2", "10.0.0.3"]);
    assert!(parse_dns_servers("no resolvers").is_empty());
}

#[test]
fn ping_with_total_loss_has_no_latency() {
    let sample = "--- 10.0.0.1 ping statistics ---\n3 packets transmitted, 0 packets received, 100.0% packet loss\n";
    let result = parse_ping_output(sample);
    assert_eq!(result.packet_loss_percent, Some(Decimal::new(1000, 1)));
    assert_eq!(result.latency_ms, None);
    assert_eq!(result.jitter_ms, None);
    assert_eq!(parse_ping_output(""), PingResult::default());
}

#[test]
fn router_and_query_time() {
    assert_eq!(parse_router_ip("IP address: 192.168.1.20\nRouter: 192.168.1.1\n"), Some("192.168.1.1".to_string()));
    assert_eq!(parse_router_ip("Router: none\n"), None);
    assert_eq!(parse_query_time(";; Query time: 23 msec\n"), Some(Decimal::new(23, 0)));
    assert_eq!(parse_query_time(";; Query time: 23 ms\n"), None);
    assert_eq!(DnsInfo::default().servers.len(), 0);
}
