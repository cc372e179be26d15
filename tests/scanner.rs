use flightvars::scanner::PortScanner;

#[test]
fn scanner_offers_only_ports_not_in_use() {
    let mut scanner = PortScanner::new(vec!["COM3".to_string(), "COM4".to_string(), "COM5".to_string()]);
    assert_eq!(scanner.candidates(), vec![0, 1, 2]);
    scanner.mark_in_use(1);
    assert_eq!(scanner.candidates(), vec![0, 2]);
    assert_eq!(scanner.name(2), "COM5");
    assert_eq!(scanner.port_count(), 3);
}
