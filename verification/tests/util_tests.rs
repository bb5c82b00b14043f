use ovhctl::fmt::Kind;
use ovhctl::ip::Cidr;
use ovhctl::ip::IpBits;
use ovhctl::ip::contains;
use ovhctl::num::i64_to_string;
use ovhctl::num::u64_to_string;
use ovhctl::paths::credential_path;
use ovhctl::paths::instance_list_path;
use ovhctl::paths::record_list_path;
use ovhctl::paths::record_path;
use ovhctl::paths::refresh_path;
use ovhctl::paths::server_path;
use ovhctl::paths::tenant_list_path;
use ovhctl::paths::tenant_path;
use ovhctl::paths::zone_list_path;
use ovhctl::paths::zone_path;
use ovhctl::paths::loadbalancer_list_path;
use ovhctl::paths::loadbalancer_path;
use ovhctl::paths::server_list_path;
use ovhctl::strings::str_eq;
use ovhctl::strings::strip_suffix_once;
use ovhctl::strings::trim_end_matches;

#[test]
fn decimal_rendering() {
    assert_eq!(u64_to_string(0), "0");
    assert_eq!(u64_to_string(7), "7");
    assert_eq!(u64_to_string(1366560945), "1366560945");
    assert_eq!(u64_to_string(u64::MAX), "18446744073709551615");
    assert_eq!(i64_to_string(0), "0");
    assert_eq!(i64_to_string(-1), "-1");
    assert_eq!(i64_to_string(42), "42");
    assert_eq!(i64_to_string(i64::MIN), "-9223372036854775808");
    assert_eq!(i64_to_string(i64::MAX), "9223372036854775807");
}

#[test]
fn string_equality_and_trimming() {
    assert!(str_eq("public", "public"));
    assert!(!str_eq("public", "private"));
    assert!(!str_eq("public", "publi"));
    assert_eq!(trim_end_matches("web-01.example.com", ".example.com"), "web-01");
    assert_eq!(trim_end_matches("web-01", ".example.com"), "web-01");
    assert_eq!(trim_end_matches("a.b.b", ".b"), "a");
    assert_eq!(trim_end_matches("web-01", ""), "web-01");
    assert_eq!(strip_suffix_once("web-01.example.com", ".example.com"), "web-01");
    assert_eq!(strip_suffix_once("a.b.b", ".b"), "a.b");
    assert_eq!(strip_suffix_once("web-01", ".example.com"), "web-01");
    assert_eq!(strip_suffix_once("web-01", ""), "web-01");
}

#[test]
fn cidr_containment_picks_first_match() {
    let a = Cidr { bits: IpBits::V4(0x0A000000), prefix: 8 };
    let b = Cidr { bits: IpBits::V4(0x0A010000), prefix: 16 };
    let cidrs = vec![a, b];
    let inside_both = IpBits::V4(0x0A010203);
    let first = contains(&cidrs, &inside_both);
    assert_eq!(first, Some(a));
    let outside = IpBits::V4(0x0B000001);
    assert_eq!(contains(&cidrs, &outside), None);
}

#[test]
fn cidr_edge_prefixes() {
    let all = Cidr { bits: IpBits::V4(0), prefix: 0 };
    assert_eq!(contains(&vec![all], &IpBits::V4(0xFFFFFFFF)), Some(all));
    let host = Cidr { bits: IpBits::V4(0x0A000001), prefix: 32 };
    assert_eq!(contains(&vec![host], &IpBits::V4(0x0A000001)), Some(host));
    assert_eq!(contains(&vec![host], &IpBits::V4(0x0A000002)), None);
}

#[test]
fn cidr_families_never_mix() {
    let v4net = Cidr { bits: IpBits::V4(0), prefix: 0 };
    assert_eq!(contains(&vec![v4net], &IpBits::V6(1)), None);
    let v6net = Cidr { bits: IpBits::V6(0), prefix: 0 };
    assert_eq!(contains(&vec![v6net], &IpBits::V4(1)), None);
}

#[test]
fn cidr_v6_containment() {
    let net = Cidr { bits: IpBits::V6(0x2001_0db8 << 96), prefix: 32 };
    assert_eq!(
        contains(&vec![net], &IpBits::V6((0x2001_0db8 << 96) | 0x7)),
        Some(net),
    );
    assert_eq!(contains(&vec![net], &IpBits::V6(0x2001_0db9 << 96)), None);
    let host = Cidr { bits: IpBits::V6(0x2001_0db8 << 96), prefix: 128 };
    assert_eq!(contains(&vec![host], &IpBits::V6(0x2001_0db8 << 96)), Some(host));
    assert_eq!(contains(&vec![host], &IpBits::V6((0x2001_0db8 << 96) | 1)), None);
}

#[test]
fn api_paths() {
    assert_eq!(tenant_list_path(), "cloud/project");
    assert_eq!(tenant_path("t-1"), "cloud/project/t-1");
    assert_eq!(instance_list_path("t-1"), "cloud/project/t-1/instance");
    assert_eq!(loadbalancer_list_path("t-1"), "cloud/project/t-1/loadbalancer");
    assert_eq!(loadbalancer_path("t-1", "lb-1"), "cloud/project/t-1/loadbalancer/lb-1");
    assert_eq!(server_list_path(), "dedicated/server");
    assert_eq!(server_path("ns1"), "dedicated/server/ns1");
    assert_eq!(zone_list_path(), "domain/zone");
    assert_eq!(zone_path("example.com"), "domain/zone/example.com");
    assert_eq!(record_list_path("example.com"), "domain/zone/example.com/record");
    assert_eq!(record_path("example.com", 42), "domain/zone/example.com/record/42");
    assert_eq!(refresh_path("example.com"), "domain/zone/example.com/refresh");
    assert_eq!(credential_path(), "auth/credential");
}

#[test]
fn output_kind_parsing() {
    assert_eq!(Kind::parse("short"), Some(Kind::Short));
    assert_eq!(Kind::parse("wide"), Some(Kind::Wide));
    assert_eq!(Kind::parse("json"), Some(Kind::Json));
    assert_eq!(Kind::parse("yaml"), Some(Kind::Yaml));
    assert_eq!(Kind::parse("table"), None);
    assert_eq!(Kind::parse(""), None);
    assert_eq!(Kind::parse("Short"), None);
}
