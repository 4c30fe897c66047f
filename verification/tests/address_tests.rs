use chat::Address;

#[test]
fn test_address_new() {
    let addr = Address::new("0.0.0.0".to_string(), "10000".to_string());
    assert_eq!(addr.hostname, "0.0.0.0");
    assert_eq!(addr.port, "10000");
}

#[test]
fn test_address_default() {
    let addr = Address::default();
    assert_eq!(addr.hostname, "localhost");
    assert_eq!(addr.port, "11111");
}

#[test]
fn test_address_to_string() {
    let addr = Address::new("0.0.0.0".to_string(), "10000".to_string());
    assert_eq!(addr.to_string(), "0.0.0.0:10000");
}

#[test]
fn test_address_parse_arguments_two() {
    let args = vec![
        "server".to_string(),
        "example.org".to_string(),
        "8080".to_string(),
    ];
    let addr = Address::parse_arguments(args);
    assert_eq!(addr.to_string(), "example.org:8080");
}

#[test]
fn test_address_parse_arguments_wrong_count() {
    let addr = Address::parse_arguments(vec!["server".to_string()]);
    assert_eq!(addr.to_string(), "localhost:11111");
    let addr = Address::parse_arguments(vec![]);
    assert_eq!(addr.to_string(), "localhost:11111");
}
