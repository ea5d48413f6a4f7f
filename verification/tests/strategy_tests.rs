use tunneler::parse_strategy;
use tunneler::Strategy;

#[test]
fn single_strategy() {
    assert_eq!(Ok(Strategy::Single(8080)), parse_strategy("8080"))
}

#[test]
fn dynamic_strategy() {
    assert_eq!(Ok(Strategy::Dynamic(None)), parse_strategy(".."))
}

#[test]
fn dynamic_range_strategy() {
    assert_eq!(
        Ok(Strategy::Dynamic(Some(8080..8090))),
        parse_strategy("8080..8090")
    )
}

#[test]
fn multiple_strategy() {
    assert_eq!(
        Ok(Strategy::Multiple(vec![8080, 8081, 8082])),
        parse_strategy("8080,8081,8082")
    )
}

#[test]
fn strategy_rejects_text() {
    assert!(parse_strategy("localhost").is_err());
}

#[test]
fn strategy_rejects_empty() {
    assert!(parse_strategy("").is_err());
}

#[test]
fn strategy_rejects_port_above_range() {
    assert!(parse_strategy("65536").is_err());
    assert_eq!(Ok(Strategy::Single(65535)), parse_strategy("65535"));
}

#[test]
fn strategy_rejects_bad_list_piece() {
    assert!(parse_strategy("8080,x,8082").is_err());
    assert!(parse_strategy("8080,").is_err());
}

#[test]
fn strategy_rejects_bad_range() {
    assert!(parse_strategy("8080..").is_err());
    assert!(parse_strategy("..8090").is_err());
    assert!(parse_strategy("1..2..3").is_err());
}
