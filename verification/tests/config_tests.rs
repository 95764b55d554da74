use region_scan::config::{parse_u16, worker_count_from_arg};

fn arg(s: &str) -> Vec<u8> {
    s.as_bytes().to_vec()
}

#[test]
fn absent_argument_means_one_worker() {
    assert_eq!(worker_count_from_arg(None), 1);
}

#[test]
fn zero_is_clamped_to_one_worker() {
    assert_eq!(worker_count_from_arg(Some(&arg("0"))), 1);
}

#[test]
fn non_numeric_text_means_one_worker() {
    assert_eq!(worker_count_from_arg(Some(&arg("abc"))), 1);
    assert_eq!(worker_count_from_arg(Some(&arg("4x"))), 1);
    assert_eq!(worker_count_from_arg(Some(&arg(""))), 1);
    assert_eq!(worker_count_from_arg(Some(&arg("-2"))), 1);
}

#[test]
fn numeric_text_sets_the_worker_count() {
    assert_eq!(worker_count_from_arg(Some(&arg("8"))), 8);
    assert_eq!(worker_count_from_arg(Some(&arg("65535"))), 65535);
    assert_eq!(worker_count_from_arg(Some(&arg("+3"))), 3);
}

#[test]
fn out_of_range_text_means_one_worker() {
    assert_eq!(worker_count_from_arg(Some(&arg("65536"))), 1);
    assert_eq!(worker_count_from_arg(Some(&arg("99999999999999999999"))), 1);
}

#[test]
fn parse_matches_unsigned_decimal_parsing() {
    assert_eq!(parse_u16(&arg("0")), Some(0));
    assert_eq!(parse_u16(&arg("123")), Some(123));
    assert_eq!(parse_u16(&arg("+0")), Some(0));
    assert_eq!(parse_u16(&arg("65535")), Some(65535));
    assert_eq!(parse_u16(&arg("65536")), None);
    assert_eq!(parse_u16(&arg("")), None);
    assert_eq!(parse_u16(&arg("+")), None);
    assert_eq!(parse_u16(&arg(" 1")), None);
    assert_eq!(parse_u16(&arg("1 ")), None);
}
