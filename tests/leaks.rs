use linkage::{
    check_leaks, dns_probe_url, dns_servers_from_samples, generate_dns_leak_prefix,
    get_dns_leak_test_config, sorted_unique, DnsTestConfig, IpAddress, LeakCheckResult, LeakSnapshot,
};

#[test]
fn test_generate_dns_leak_prefix() {
    for _ in 0..1000 {
        let s = generate_dns_leak_prefix();
        assert_eq!(40, s.len());
        assert!(s.chars().all(|x| x.is_ascii_digit() || x.is_ascii_lowercase()));
    }
}

#[test]
fn prefixes_differ() {
    assert_ne!(generate_dns_leak_prefix(), generate_dns_leak_prefix());
}

#[test]
fn test_get_dns_leak_test_config() {
    assert_eq!(DnsTestConfig { total: 25, requests_per_thread: 5, amount_of_threads: 5 }, get_dns_leak_test_config(25));
    assert_eq!(DnsTestConfig { total: 100, requests_per_thread: 5, amount_of_threads: 20 }, get_dns_leak_test_config(100));
    assert_eq!(DnsTestConfig { total: 75, requests_per_thread: 5, amount_of_threads: 15 }, get_dns_leak_test_config(74));
    assert_eq!(DnsTestConfig { total: 80, requests_per_thread: 5, amount_of_threads: 16 }, get_dns_leak_test_config(76));
    assert_eq!(DnsTestConfig { total: 80, requests_per_thread: 5, amount_of_threads: 16 }, get_dns_leak_test_config(79));
    assert_eq!(DnsTestConfig { total: 0, requests_per_thread: 5, amount_of_threads: 0 }, get_dns_leak_test_config(0));
    assert_eq!(DnsTestConfig { total: 5, requests_per_thread: 5, amount_of_threads: 1 }, get_dns_leak_test_config(1));
}

#[test]
fn dns_config_at_the_largest_size() {
    assert_eq!(
        DnsTestConfig { total: u32::MAX, requests_per_thread: 5, amount_of_threads: u32::MAX / 5 },
        get_dns_leak_test_config(u32::MAX)
    );
    assert_eq!(
        DnsTestConfig { total: u32::MAX, requests_per_thread: 5, amount_of_threads: u32::MAX / 5 },
        get_dns_leak_test_config(u32::MAX - 3)
    );
}

#[test]
fn probe_url_holds_the_label() {
    assert_eq!("https://abc123.ipleak.net/dnsdetect/", dns_probe_url("abc123"));
}

#[test]
fn samples_are_sorted_and_deduplicated() {
    let a = IpAddress::V4(0x0808_0808);
    let b = IpAddress::V4(0x0101_0101);
    let c = IpAddress::V6(1);
    let samples = vec![c, a, b, a, c, b, a, a, b, c];
    let config = get_dns_leak_test_config(10);
    let servers = dns_servers_from_samples(&config, &samples).unwrap();
    assert_eq!(vec![b, a, c], servers);
    assert!(servers.len() as u32 <= config.total);
}

#[test]
fn incomplete_samples_give_no_result() {
    let config = get_dns_leak_test_config(6);
    assert_eq!(10, config.total);
    let samples = vec![IpAddress::V4(1); 9];
    assert_eq!(None, dns_servers_from_samples(&config, &samples));
}

#[test]
fn sorted_unique_of_nothing_is_empty() {
    assert_eq!(Vec::<IpAddress>::new(), sorted_unique(&vec![]));
}

fn snapshot(ipv4: &str, ipv6: &str, dns: Vec<IpAddress>) -> LeakSnapshot {
    LeakSnapshot { ipv4: ipv4.to_string(), ipv6: ipv6.to_string(), dns_servers: dns }
}

#[test]
fn shared_resolver_is_a_dns_leak() {
    let before = snapshot("1.2.3.4", "2001:db8::1", vec![IpAddress::V4(10), IpAddress::V4(20)]);
    let after = snapshot("5.6.7.8", "2001:db8::2", vec![IpAddress::V4(30), IpAddress::V4(20)]);
    assert_eq!(LeakCheckResult { dns_leak: true, ip_leak: false }, check_leaks(&before, &after));
}

#[test]
fn disjoint_resolvers_and_new_addresses_are_no_leak() {
    let before = snapshot("1.2.3.4", "2001:db8::1", vec![IpAddress::V4(10), IpAddress::V6(20)]);
    let after = snapshot("5.6.7.8", "2001:db8::2", vec![IpAddress::V4(30), IpAddress::V4(20)]);
    assert_eq!(LeakCheckResult { dns_leak: false, ip_leak: false }, check_leaks(&before, &after));
}

#[test]
fn unchanged_address_is_an_ip_leak() {
    let before = snapshot("1.2.3.4", "2001:db8::1", vec![]);
    let after = snapshot("5.6.7.8", "2001:db8::1", vec![IpAddress::V4(1)]);
    assert_eq!(LeakCheckResult { dns_leak: false, ip_leak: true }, check_leaks(&before, &after));
    let after4 = snapshot("1.2.3.4", "2001:db8::9", vec![]);
    assert_eq!(LeakCheckResult { dns_leak: false, ip_leak: true }, check_leaks(&before, &after4));
}
