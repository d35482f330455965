use arwah::input::{ArwahPortRange, ArwahScanOrder};
use arwah::strategy::{arwah_gcd, ArwahRange, ArwahStrategy};

fn test_arwah_generate_sorted_range(start: u32, end: u32) -> Vec<u16> {
    let mut range = ArwahRange::arwah_new(start, end);
    let mut result: Vec<u16> = Vec::new();
    while let Some(port) = range.arwah_next() {
        result.push(port);
    }
    result.sort_unstable();
    result
}

#[test]
fn test_range_iterator_iterates_through_the_entire_range() {
    let result = test_arwah_generate_sorted_range(1, 10);
    let expected_range = (1..=10).collect::<Vec<u16>>();
    assert_eq!(expected_range, result);

    let result = test_arwah_generate_sorted_range(1, 100);
    let expected_range = (1..=100).collect::<Vec<u16>>();
    assert_eq!(expected_range, result);

    let result = test_arwah_generate_sorted_range(1, 1000);
    let expected_range = (1..=1000).collect::<Vec<u16>>();
    assert_eq!(expected_range, result);

    let result = test_arwah_generate_sorted_range(1, 65535);
    let expected_range = (1..=65535).collect::<Vec<u16>>();
    assert_eq!(expected_range, result);

    let result = test_arwah_generate_sorted_range(1000, 2000);
    let expected_range = (1000..=2000).collect::<Vec<u16>>();
    assert_eq!(expected_range, result);
}

#[test]
fn serial_strategy_with_range() {
    let range = ArwahPortRange { start: 1, end: 100 };
    let strategy = ArwahStrategy::arwah_pick(&Some(range), None, ArwahScanOrder::Serial);
    let result = strategy.arwah_order();
    let expected_range = (1..=100).collect::<Vec<u16>>();
    assert_eq!(expected_range, result);
}

#[test]
fn random_strategy_with_range() {
    let range = ArwahPortRange { start: 1, end: 100 };
    let strategy = ArwahStrategy::arwah_pick(&Some(range), None, ArwahScanOrder::Random);
    let mut result = strategy.arwah_order();
    let expected_range = (1..=100).collect::<Vec<u16>>();
    assert_ne!(expected_range, result);

    result.sort_unstable();
    assert_eq!(expected_range, result);
}

#[test]
fn serial_strategy_with_ports() {
    let strategy = ArwahStrategy::arwah_pick(&None, Some(vec![80, 443]), ArwahScanOrder::Serial);
    let result = strategy.arwah_order();
    assert_eq!(vec![80, 443], result);
}

#[test]
fn random_strategy_with_ports() {
    let strategy =
        ArwahStrategy::arwah_pick(&None, Some((1..10).collect()), ArwahScanOrder::Random);
    let mut result = strategy.arwah_order();
    let expected_range = (1..10).collect::<Vec<u16>>();
    assert_ne!(expected_range, result);

    result.sort_unstable();
    assert_eq!(expected_range, result);
}

#[test]
fn gcd_matches_euclid() {
    assert_eq!(arwah_gcd(12, 8), 4);
    assert_eq!(arwah_gcd(8, 12), 4);
    assert_eq!(arwah_gcd(7, 13), 1);
    assert_eq!(arwah_gcd(100, 0), 100);
    assert_eq!(arwah_gcd(0, 9), 9);
    assert_eq!(arwah_gcd(65535, 3), 3);
}

#[test]
fn single_port_range_is_covered() {
    let result = test_arwah_generate_sorted_range(443, 443);
    assert_eq!(result, vec![443]);
}
