use yalt::config::{build_run_config, generate_db_filename, parse_target, ConfigError};
use yalt::textfmt::{parse_uint, u64_to_string};

#[test]
fn parse_target_accepts_host_port_weight() {
    let t = parse_target("127.0.0.1:12345:50").unwrap();
    assert_eq!(t.host, "127.0.0.1");
    assert_eq!(t.port, 12345);
    assert_eq!(t.weight, 50);
}

#[test]
fn parse_target_ignores_fields_past_the_third() {
    let t = parse_target("h:1:2:3").unwrap();
    assert_eq!(t.host, "h");
    assert_eq!(t.port, 1);
    assert_eq!(t.weight, 2);
}

#[test]
fn parse_target_allows_empty_host_and_plus_signs() {
    let t = parse_target(":+80:+5").unwrap();
    assert_eq!(t.host, "");
    assert_eq!(t.port, 80);
    assert_eq!(t.weight, 5);
}

#[test]
fn parse_target_rejects_malformed_specs() {
    assert!(parse_target("127.0.0.1").is_none());
    assert!(parse_target("127.0.0.1:12345").is_none());
    assert!(parse_target("h:notaport:5").is_none());
    assert!(parse_target("h:70000:5").is_none());
    assert!(parse_target("h:80:4294967296").is_none());
    assert!(parse_target("h::5").is_none());
    assert!(parse_target("h:80:").is_none());
    assert!(parse_target("h:-80:5").is_none());
}

#[test]
fn parse_target_max_port_and_weight() {
    let t = parse_target("h:65535:4294967295").unwrap();
    assert_eq!(t.port, 65535);
    assert_eq!(t.weight, 4294967295);
}

#[test]
fn parse_uint_handles_bounds() {
    assert_eq!(parse_uint("0", 100), Some(0));
    assert_eq!(parse_uint("100", 100), Some(100));
    assert_eq!(parse_uint("101", 100), None);
    assert_eq!(parse_uint("007", 100), Some(7));
    assert_eq!(parse_uint("", 100), None);
    assert_eq!(parse_uint("+", 100), None);
    assert_eq!(parse_uint("18446744073709551615", u64::MAX), Some(u64::MAX));
}

#[test]
fn build_run_config_validates_everything() {
    let specs = vec!["a:1:66".to_string(), "b:2:33".to_string()];
    let c = build_run_config(&specs, 200_000, 10, "x".to_string()).unwrap();
    assert_eq!(c.targets.len(), 2);
    assert_eq!(c.total_weight, 99);
    assert_eq!(c.rate_units, 200_000);
    assert_eq!(c.duration_seconds, 10);
    assert_eq!(c.payload, "x");
}

#[test]
fn build_run_config_rejects_bad_rates() {
    let specs = vec!["a:1:1".to_string()];
    assert_eq!(
        build_run_config(&specs, 0, 10, String::new()).unwrap_err(),
        ConfigError::InvalidRate
    );
    assert_eq!(
        build_run_config(&specs, 100_000_000_001, 10, String::new()).unwrap_err(),
        ConfigError::InvalidRate
    );
}

#[test]
fn build_run_config_rejects_malformed_target() {
    let specs = vec!["a:1:1".to_string(), "nonsense".to_string()];
    assert_eq!(
        build_run_config(&specs, 1_000, 10, String::new()).unwrap_err(),
        ConfigError::MalformedTarget
    );
}

#[test]
fn build_run_config_rejects_zero_total_weight() {
    let specs = vec!["a:1:0".to_string(), "b:2:0".to_string()];
    assert_eq!(
        build_run_config(&specs, 1_000, 10, String::new()).unwrap_err(),
        ConfigError::ZeroTotalWeight
    );
    let none: Vec<String> = vec![];
    assert_eq!(
        build_run_config(&none, 1_000, 10, String::new()).unwrap_err(),
        ConfigError::ZeroTotalWeight
    );
}

#[test]
fn build_run_config_rejects_weight_overflow() {
    let specs = vec!["a:1:4294967295".to_string(), "b:2:1".to_string()];
    assert_eq!(
        build_run_config(&specs, 1_000, 10, String::new()).unwrap_err(),
        ConfigError::WeightOverflow
    );
}

#[test]
fn db_filename_matches_run_shape() {
    let ips = vec!["127.0.0.1:12345:50".to_string(), "127.0.0.1:12346:50".to_string()];
    let name = generate_db_filename(&ips, "200", 10);
    assert_eq!(
        name,
        "127.0.0.1_12345_50_127.0.0.1_12346_50_rate200_dur10.db"
    );
}

#[test]
fn db_filename_with_no_targets() {
    let ips: Vec<String> = vec![];
    assert_eq!(generate_db_filename(&ips, "1.5", 0), "_rate1.5_dur0.db");
}

#[test]
fn u64_to_string_spells_decimals() {
    assert_eq!(u64_to_string(0), "0");
    assert_eq!(u64_to_string(9), "9");
    assert_eq!(u64_to_string(1234567890), "1234567890");
    assert_eq!(u64_to_string(u64::MAX), "18446744073709551615");
}
