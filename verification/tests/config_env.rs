use enclave_proxy::config::{parse_u64_dec, resolve_config};

fn s(v: &str) -> String {
    v.to_string()
}

#[test]
fn decimal_parsing_matches_the_standard_library() {
    for input in ["0", "30", "007", "+42", "18446744073709551615", "", "+", "abc", "-1",
        "18446744073709551616", "1 ", " 1", "1.5"]
    {
        assert_eq!(parse_u64_dec(input), input.parse::<u64>().ok(), "input {:?}", input);
    }
}

#[test]
fn defaults_apply_when_the_environment_is_bare() {
    let c = resolve_config(None, None, None);
    assert_eq!(c.enclave_id, "unknown");
    assert_eq!(c.workload_type, "batch");
    assert_eq!(c.health_interval, 30);
}

#[test]
fn configured_values_win() {
    let c = resolve_config(Some(s("abc")), Some(s("service")), Some(s("1")));
    assert_eq!(c.enclave_id, "abc");
    assert_eq!(c.workload_type, "service");
    assert_eq!(c.health_interval, 1);
}

#[test]
fn an_unparsable_interval_falls_back_to_thirty() {
    let c = resolve_config(Some(s("abc")), Some(s("batch")), Some(s("soon")));
    assert_eq!(c.health_interval, 30);
    let big = resolve_config(None, None, Some(s("99999999999999999999")));
    assert_eq!(big.health_interval, 30);
}
