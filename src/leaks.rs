//! Leak detection: how many DNS probes to make and how, what the probes found, and the
//! verdict that compares two snapshots of the host's resolvers and public addresses.

use vstd::prelude::*;
use crate::address::{lemma_rank_injective, IpAddress};

verus! {

/// How many probes each worker of the DNS leak test makes.
pub const LEAK_DETECT_REQUESTS_PER_THREAD: u32 = 5;

/// The length of the random label of a DNS probe.
pub const LEAK_DETECT_DNS_PREFIX_LENGTH: usize = 40;

/// How a DNS leak test is run: `total` probes, made by `amount_of_threads` workers of
/// `requests_per_thread` probes each.
#[derive(Debug, Clone, Copy, PartialEq, Eq, Structural)]
pub struct DnsTestConfig {
    pub total: u32,
    pub requests_per_thread: u32,
    pub amount_of_threads: u32,
}

/// The configuration of a DNS leak test of at least `amount_of_requests` probes: the
/// number of probes is rounded up to the smallest multiple of the probes per worker.
pub fn get_dns_leak_test_config(amount_of_requests: u32) -> (r: DnsTestConfig)
    ensures
        r.requests_per_thread == LEAK_DETECT_REQUESTS_PER_THREAD,
        r.total % LEAK_DETECT_REQUESTS_PER_THREAD == 0,
        amount_of_requests <= r.total < amount_of_requests + LEAK_DETECT_REQUESTS_PER_THREAD,
        r.amount_of_threads == r.total / LEAK_DETECT_REQUESTS_PER_THREAD,
{
    let requests_per_thread: u32 = LEAK_DETECT_REQUESTS_PER_THREAD;
    let rest = amount_of_requests % requests_per_thread;
    // u32::MAX is itself a multiple of five, so rounding up stays in range
    let total: u32 = if rest != 0 {
        amount_of_requests + (requests_per_thread - rest)
    } else {
        amount_of_requests
    };
    DnsTestConfig { total, requests_per_thread, amount_of_threads: total / requests_per_thread }
}

/// The characters of a probe label: lower-case letters and digits.
pub open spec fn is_label_char(c: char) -> bool {
    ('a' <= c && c <= 'z') || ('0' <= c && c <= '9')
}

/// Relies on `random_string::generate`: a string of `length` characters, each one drawn
/// from `charset`; it panics when `charset` is empty.
#[verifier::external_body]
fn random_text(length: usize, charset: &str) -> (r: String)
    requires
        charset@.len() > 0,
    ensures
        r@.len() == length,
        forall|i: int| 0 <= i < length ==> charset@.contains(#[trigger] r@[i]),
{
    random_string::generate(length, charset)
}

/// A random label for a DNS probe, so that no cache answers it: 40 lower-case letters
/// and digits.
pub fn generate_dns_leak_prefix() -> (r: String)
    ensures
        r@.len() == LEAK_DETECT_DNS_PREFIX_LENGTH,
        forall|i: int| 0 <= i < r@.len() ==> is_label_char(#[trigger] r@[i]),
{
    let charset = "abcdefghijklmnopqrstuvwxyz0123456789";
    proof {
        reveal_strlit("abcdefghijklmnopqrstuvwxyz0123456789");
        assert forall|c: char| charset@.contains(c) implies is_label_char(c) by {
            let k = choose|k: int| 0 <= k < charset@.len() && charset@[k] == c;
            assert(is_label_char(charset@[k]));
        }
    }
    random_text(LEAK_DETECT_DNS_PREFIX_LENGTH, charset)
}

/// The address of a DNS probe whose random label is `prefix`.
pub open spec fn dns_probe_url_text(prefix: Seq<char>) -> Seq<char> {
    "https://"@ + prefix + ".ipleak.net/dnsdetect/"@
}

/// The address of a DNS probe whose random label is `prefix`.
pub fn dns_probe_url(prefix: &str) -> (r: String)
    ensures
        r@ == dns_probe_url_text(prefix@),
{
    let mut url = String::from_str("https://");
    url.append(prefix);
    url.append(".ipleak.net/dnsdetect/");
    url
}

/// Addresses in strictly increasing order, hence without duplicates.
pub open spec fn is_strictly_sorted(s: Seq<IpAddress>) -> bool {
    forall|i: int, j: int| 0 <= i < j < s.len() ==> (#[trigger] s[i]).rank() < (#[trigger] s[j]).rank()
}

/// Puts `a` into the sorted `v` at its place, unless it is there already.
fn insert_sorted(v: &mut Vec<IpAddress>, a: IpAddress)
    requires
        is_strictly_sorted(old(v)@),
    ensures
        is_strictly_sorted(final(v)@),
        forall|x: IpAddress| final(v)@.contains(x) <==> (old(v)@.contains(x) || x == a),
        final(v)@.len() <= old(v)@.len() + 1,
{
    let mut k: usize = 0;
    while k < v.len() && v[k].is_before(&a)
        invariant
            k <= v@.len(),
            v@ == old(v)@,
            forall|j: int| 0 <= j < k ==> (#[trigger] v@[j]).rank() < a.rank(),
        decreases v@.len() - k,
    {
        k = k + 1;
    }
    if k < v.len() && v[k] == a {
        return;
    }
    proof {
        if k < v@.len() {
            assert(v@[k as int].rank() >= a.rank());
            if v@[k as int].rank() == a.rank() {
                lemma_rank_injective(v@[k as int], a);
            }
        }
    }
    v.insert(k, a);
    proof {
        let o = old(v)@;
        assert forall|i: int, j: int| 0 <= i < j < v@.len() implies (#[trigger] v@[i]).rank() < (#[trigger] v@[j]).rank() by {
            if j < k {
            } else if j == k {
            } else if i < k {
                assert(v@[j] == o[j - 1]);
                assert(o[k as int].rank() > a.rank());
                if j - 1 > k {
                    assert(o[k as int].rank() < o[j - 1].rank());
                }
            } else if i == k {
                assert(v@[j] == o[j - 1]);
                if j - 1 > k {
                    assert(o[k as int].rank() < o[j - 1].rank());
                }
            } else {
                assert(v@[i] == o[i - 1]);
                assert(v@[j] == o[j - 1]);
            }
        }
        assert forall|x: IpAddress| v@.contains(x) <==> (o.contains(x) || x == a) by {
            if v@.contains(x) {
                let i = choose|i: int| 0 <= i < v@.len() && v@[i] == x;
                if i < k {
                    assert(o[i] == x);
                } else if i > k {
                    assert(o[i - 1] == x);
                }
            }
            if o.contains(x) {
                let i = choose|i: int| 0 <= i < o.len() && o[i] == x;
                if i < k {
                    assert(v@[i] == x);
                } else {
                    assert(v@[i + 1] == x);
                }
            }
            if x == a {
                assert(v@[k as int] == a);
            }
        }
    }
}

/// The addresses of `samples`, sorted, each once.
pub fn sorted_unique(samples: &Vec<IpAddress>) -> (r: Vec<IpAddress>)
    ensures
        is_strictly_sorted(r@),
        forall|x: IpAddress| r@.contains(x) <==> samples@.contains(x),
        r@.len() <= samples@.len(),
{
    let mut r: Vec<IpAddress> = Vec::new();
    let mut i: usize = 0;
    while i < samples.len()
        invariant
            i <= samples@.len(),
            is_strictly_sorted(r@),
            forall|x: IpAddress| r@.contains(x) <==> samples@.take(i as int).contains(x),
            r@.len() <= i,
        decreases samples@.len() - i,
    {
        let ghost r0 = r@;
        insert_sorted(&mut r, samples[i]);
        proof {
            let t0 = samples@.take(i as int);
            let t1 = samples@.take(i + 1);
            assert(t1 =~= t0.push(samples@[i as int]));
            assert forall|x: IpAddress| r@.contains(x) <==> t1.contains(x) by {
                assert(r0.contains(x) <==> t0.contains(x));
                if x == samples@[i as int] {
                    assert(t1[i as int] == x);
                }
                if t0.contains(x) {
                    let j = choose|j: int| 0 <= j < t0.len() && t0[j] == x;
                    assert(t1[j] == x);
                }
                if t1.contains(x) {
                    let j = choose|j: int| 0 <= j < t1.len() && t1[j] == x;
                    if j < i {
                        assert(t0[j] == x);
                    }
                }
            }
        }
        i = i + 1;
    }
    assert(samples@.take(i as int) =~= samples@);
    r
}

/// The resolvers that a DNS leak test found, from the addresses its probes reported: the
/// result is given only when exactly `config.total` probes reported, as a partial sample
/// cannot be trusted; it is then sorted and holds each address once.
pub fn dns_servers_from_samples(config: &DnsTestConfig, samples: &Vec<IpAddress>) -> (r: Option<Vec<IpAddress>>)
    ensures
        r is Some <==> samples@.len() == config.total,
        r is Some ==> {
            &&& is_strictly_sorted(r->Some_0@)
            &&& forall|x: IpAddress| r->Some_0@.contains(x) <==> samples@.contains(x)
            &&& r->Some_0@.len() <= config.total
        },
{
    if samples.len() != config.total as usize {
        return None;
    }
    Some(sorted_unique(samples))
}

/// What a leak check looks at: the public addresses seen over IPv4 and over IPv6, and the
/// resolvers that a DNS leak test found.
pub struct LeakSnapshot {
    pub ipv4: String,
    pub ipv6: String,
    pub dns_servers: Vec<IpAddress>,
}

/// The verdict of a leak check.
#[derive(Debug, Clone, Copy, PartialEq, Eq, Structural)]
pub struct LeakCheckResult {
    pub dns_leak: bool,
    pub ip_leak: bool,
}

/// The two resolver lists have a resolver in common.
pub open spec fn shares_resolver(a: Seq<IpAddress>, b: Seq<IpAddress>) -> bool {
    exists|i: int, j: int| 0 <= i < a.len() && 0 <= j < b.len() && a[i] == b[j]
}

/// Compares the snapshot taken after connecting with the one taken before: a DNS leak when
/// a resolver from before is still in use, an IP leak when the public IPv4 address or the
/// public IPv6 address is unchanged.
pub fn check_leaks(baseline: &LeakSnapshot, post_connect: &LeakSnapshot) -> (r: LeakCheckResult)
    ensures
        r.dns_leak == shares_resolver(baseline.dns_servers@, post_connect.dns_servers@),
        r.ip_leak == (baseline.ipv4@ == post_connect.ipv4@ || baseline.ipv6@ == post_connect.ipv6@),
{
    let a = &baseline.dns_servers;
    let b = &post_connect.dns_servers;
    let mut dns_leak = false;
    let mut i: usize = 0;
    while i < a.len()
        invariant
            i <= a@.len(),
            dns_leak == exists|x: int, y: int| 0 <= x < i && 0 <= y < b@.len() && a@[x] == b@[y],
        decreases a@.len() - i,
    {
        let mut j: usize = 0;
        let mut found = false;
        while j < b.len()
            invariant
                i < a@.len(),
                j <= b@.len(),
                found == exists|y: int| 0 <= y < j && a@[i as int] == b@[y],
            decreases b@.len() - j,
        {
            if a[i] == b[j] {
                found = true;
            }
            j = j + 1;
        }
        dns_leak = dns_leak || found;
        i = i + 1;
    }
    let ip_leak = baseline.ipv4 == post_connect.ipv4 || baseline.ipv6 == post_connect.ipv6;
    LeakCheckResult { dns_leak, ip_leak }
}

} // verus!
