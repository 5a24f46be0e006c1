//! Resource quantities.

use kubelet::config::{container_limits, CpuReadings};
use kubelet::quantity::{
    checked_memory_quantity, parse_cpu_quantity, parse_memory_quantity, split_quantity,
};
use kubelet::resources::ResourceRequirements;

fn parse_quantity_bytes(q: &str) -> Option<u64> {
    let (number, unit) = split_quantity(q);
    number.parse::<f64>().ok().map(|v| (v * unit as f64) as u64)
}

#[test]
fn parse_quantity_bytes_handles_binary_and_decimal_suffixes() {
    assert_eq!(parse_quantity_bytes("1Gi"), Some(1024 * 1024 * 1024));
    assert_eq!(parse_quantity_bytes("512Mi"), Some(512 * 1024 * 1024));
    assert_eq!(parse_quantity_bytes("100M"), Some(100_000_000));
    assert_eq!(parse_quantity_bytes("64Ki"), Some(64 * 1024));
    assert_eq!(parse_quantity_bytes("2048"), Some(2048));
    assert_eq!(parse_quantity_bytes("bogus"), None);
}

#[test]
fn a_quantity_is_split_into_number_and_unit() {
    assert_eq!(split_quantity(" 1.5 Ti "), ("1.5".to_string(), 1_099_511_627_776));
    assert_eq!(split_quantity("3k"), ("3".to_string(), 1000));
    assert_eq!(split_quantity("3K"), ("3".to_string(), 1000));
    assert_eq!(split_quantity("2G"), ("2".to_string(), 1_000_000_000));
    assert_eq!(split_quantity("2T"), ("2".to_string(), 1_000_000_000_000));
    assert_eq!(split_quantity(""), ("".to_string(), 1));
}

#[test]
fn memory_is_counted_in_bytes() {
    assert_eq!(parse_memory_quantity("128Mi"), 134_217_728);
    assert_eq!(parse_memory_quantity("1Gi"), 1_073_741_824);
    assert_eq!(parse_memory_quantity("2Ki"), 2048);
    assert_eq!(parse_memory_quantity("3G"), 3_000_000_000);
    assert_eq!(parse_memory_quantity("3M"), 3_000_000);
    assert_eq!(parse_memory_quantity("3K"), 3000);
    assert_eq!(parse_memory_quantity("3k"), 3000);
    assert_eq!(parse_memory_quantity("1000000"), 1_000_000);
    assert_eq!(parse_memory_quantity("-5"), -5);
    assert_eq!(parse_memory_quantity("lots"), 0);
    assert_eq!(parse_memory_quantity("1.5Gi"), 0);
}

#[test]
fn too_much_memory_is_noticed() {
    assert_eq!(checked_memory_quantity("1Gi"), Some(1_073_741_824));
    assert_eq!(checked_memory_quantity("9223372036854775807Gi"), None);
    assert_eq!(checked_memory_quantity("-9223372036854775807Ki"), None);
}

#[test]
fn processors_are_counted_in_thousandths() {
    let as_cores = |s: &str| (s.parse::<f64>().unwrap_or(0.0) * 1000.0) as i64;
    assert_eq!(parse_cpu_quantity("500m", as_cores("500m")), 500);
    assert_eq!(parse_cpu_quantity("1", as_cores("1")), 1000);
    assert_eq!(parse_cpu_quantity("0.5", as_cores("0.5")), 500);
    assert_eq!(parse_cpu_quantity("bogus", as_cores("bogus")), 0);
    assert_eq!(parse_cpu_quantity("xm", as_cores("xm")), 0);
}

#[test]
fn limits_of_a_container() {
    let none = container_limits(&None, CpuReadings { limit: 0, request: 0 });
    assert_eq!(none.cpu_shares, Some(2));
    assert_eq!(none.memory, None);
    let r = ResourceRequirements {
        limits: Some(vec![
            ("memory".to_string(), "64Mi".to_string()),
            ("cpu".to_string(), "500m".to_string()),
        ]),
        requests: Some(vec![("cpu".to_string(), "250m".to_string())]),
    };
    let l = container_limits(&Some(r), CpuReadings { limit: 0, request: 0 });
    assert_eq!(l.memory, Some(67_108_864));
    assert_eq!(l.cpu_period, Some(100_000));
    assert_eq!(l.cpu_quota, Some(50_000));
    assert_eq!(l.cpu_shares, Some(256));
}
