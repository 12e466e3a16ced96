use latency_probe::text::{push_decimal, push_millionths, push_two_places};

fn decimal(n: u128) -> String {
    let mut out = String::new();
    push_decimal(&mut out, n);
    out
}

fn shown(push: fn(&mut String, u64), values: &[u64]) -> Vec<String> {
    values
        .iter()
        .map(|&n| {
            let mut out = String::new();
            push(&mut out, n);
            out
        })
        .collect()
}

#[test]
fn decimal_numerals() {
    assert_eq!(decimal(0), "0");
    assert_eq!(decimal(7), "7");
    assert_eq!(decimal(10), "10");
    assert_eq!(decimal(1_234_567_890), "1234567890");
    assert_eq!(decimal(u128::MAX), u128::MAX.to_string());
}

#[test]
fn decimal_appends() {
    let mut out = String::from("n=");
    push_decimal(&mut out, 42);
    push_decimal(&mut out, 0);
    assert_eq!(out, "n=420");
}

#[test]
fn millionths_in_shortest_form() {
    assert_eq!(
        shown(
            push_millionths,
            &[0, 5, 50, 500_000, 1_000_000, 12_340_000, 12_300_000, 33_333_333, 29_970_000]
        ),
        vec!["0", "0.000005", "0.00005", "0.5", "1", "12.34", "12.3", "33.333333", "29.97"]
    );
    assert_eq!(shown(push_millionths, &[7_812_500, 3_906_250]), vec!["7.8125", "3.90625"]);
    assert_eq!(shown(push_millionths, &[10_010_000, 1_000_001]), vec!["10.01", "1.000001"]);
    assert_eq!(shown(push_millionths, &[u64::MAX]), vec!["18446744073709.551615"]);
}

#[test]
fn two_places_are_rounded() {
    assert_eq!(
        shown(push_two_places, &[0, 4_999, 5_001, 29_999_000, 12_344_999, 12_345_001]),
        vec!["0.00", "0.00", "0.01", "30.00", "12.34", "12.35"]
    );
    assert_eq!(
        shown(push_two_places, &[1_000_000, 12_000_000, 99_995_001, 999_994_999]),
        vec!["1.00", "12.00", "100.00", "999.99"]
    );
    assert_eq!(shown(push_two_places, &[u64::MAX]), vec!["18446744073709.55"]);
}

#[test]
fn two_places_send_a_half_to_the_even_side() {
    assert_eq!(
        shown(push_two_places, &[125_000, 375_000, 625_000, 875_000, 5_000, 15_000]),
        vec!["0.12", "0.38", "0.62", "0.88", "0.00", "0.02"]
    );
}

#[test]
fn shortest_form_is_how_a_float_prints() {
    for n in [0u64, 5, 500_000, 1_000_000, 12_340_000, 33_333_333, 29_970_000, 62_123_000] {
        let as_float = n as f64 / 1_000_000.0;
        assert_eq!(shown(push_millionths, &[n])[0], format!("{}", as_float));
    }
    for n in [7_812_500u64, 15_625_000, 31_250_000, 3_906_250, 2_500_000] {
        let as_float = n as f64 / 1_000_000.0;
        assert_eq!(shown(push_millionths, &[n])[0], format!("{}", as_float));
    }
}

#[test]
fn two_places_are_how_a_float_prints_with_two_places() {
    for n in [0u64, 4_999, 5_001, 29_999_000, 29_970_000, 12_344_999, 99_995_001, 1_000_000] {
        let as_float = n as f64 / 1_000_000.0;
        assert_eq!(shown(push_two_places, &[n])[0], format!("{:.2}", as_float));
    }
    // Halves that a float holds exactly.
    for n in [125_000u64, 375_000, 625_000, 875_000, 2_125_000] {
        let as_float = n as f64 / 1_000_000.0;
        assert_eq!(shown(push_two_places, &[n])[0], format!("{:.2}", as_float));
    }
}
