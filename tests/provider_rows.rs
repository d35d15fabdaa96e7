use provider_ui::decimal::{decimal_string, fixed_string, round_to_places, Quantity};
use provider_ui::provider::{
    format_price_per_million, provider_row, GenericProviderListItem, ModelProviderInfo,
    ProviderSelectorHeader, ProviderSelectorLoading,
};

fn q(whole: u64, micros: u64) -> Quantity {
    Quantity::from_parts(whole, micros).unwrap()
}

fn price(whole: u64, micros: u64) -> String {
    format_price_per_million(q(whole, micros))
}

fn bare(name: &str) -> ModelProviderInfo {
    ModelProviderInfo {
        display_name: name.to_string(),
        quantization: None,
        throughput_tps: None,
        latency_ms: None,
        input_price_per_million: None,
        output_price_per_million: None,
    }
}

fn places_after_point(s: &str) -> usize {
    let point = s.find('.').expect("a point");
    assert_eq!(s.matches('.').count(), 1);
    assert!(s.chars().all(|c| c == '.' || c.is_ascii_digit()));
    s.len() - point - 1
}

#[test]
fn full_provider_row_shows_rounded_metrics_and_prices() {
    let mut p = bare("Acme");
    p.throughput_tps = Some(q(42, 700_000));
    p.latency_ms = Some(q(310, 200_000));
    p.input_price_per_million = Some(q(0, 5_000));
    p.output_price_per_million = Some(q(2, 500_000));
    let row = provider_row(&p, false);
    assert_eq!(row.name, "Acme");
    assert_eq!(format!("{} tok/s", row.throughput), "43 tok/s");
    assert_eq!(row.latency, "310ms");
    assert_eq!(format!("${}/M in", row.input_price), "$0.0050/M in");
    assert_eq!(format!("${}/M out", row.output_price), "$2.5/M out");
}

#[test]
fn empty_provider_row_shows_zeros_and_na() {
    let row = provider_row(&bare("Empty"), false);
    assert_eq!(format!("{} tok/s", row.throughput), "0 tok/s");
    assert_eq!(row.latency, "0ms");
    assert_eq!(format!("${}/M in", row.input_price), "$N/A/M in");
    assert_eq!(format!("${}/M out", row.output_price), "$N/A/M out");
}

#[test]
fn price_places_follow_magnitude() {
    assert_eq!(price(0, 0), "0.0000");
    assert_eq!(price(0, 9_999), "0.0100");
    assert_eq!(price(0, 10_000), "0.01");
    assert_eq!(price(0, 123_456), "0.12");
    assert_eq!(price(0, 999_999), "1.00");
    assert_eq!(price(1, 0), "1.0");
    assert_eq!(price(15, 260_000), "15.3");
    assert_eq!(price(1234, 0), "1234.0");
    for (w, m, k) in [(0, 3, 4), (0, 9_000, 4), (0, 10_001, 2), (0, 500_000, 2), (3, 0, 1), (99, 990_000, 1)] {
        assert_eq!(places_after_point(&price(w, m)), k);
    }
}

#[test]
fn price_ties_round_to_even() {
    assert_eq!(price(0, 50), "0.0000");
    assert_eq!(price(0, 150), "0.0002");
    assert_eq!(price(0, 125_000), "0.12");
    assert_eq!(price(0, 135_000), "0.14");
    assert_eq!(price(2, 250_000), "2.2");
    assert_eq!(price(2, 350_000), "2.4");
    assert_eq!(price(2, 250_001), "2.3");
}

#[test]
fn reformatting_shown_price_is_stable() {
    for (w, m) in [(0, 5_000), (0, 1_234), (0, 456_789), (7, 777_777), (0, 10_000)] {
        let text = price(w, m);
        let (int_part, frac_part) = text.split_once('.').unwrap();
        let mut frac = frac_part.to_string();
        while frac.len() < 6 {
            frac.push('0');
        }
        let back = q(int_part.parse().unwrap(), frac.parse().unwrap());
        assert_eq!(format_price_per_million(back), text);
    }
}

#[test]
fn reformatting_can_change_places_when_rounding_crosses_a_range() {
    assert_eq!(price(0, 9_996), "0.0100");
    assert_eq!(price(0, 10_000), "0.01");
}

#[test]
fn absent_prices_show_na_alone() {
    let mut p = bare("Half");
    p.throughput_tps = Some(q(10, 0));
    p.input_price_per_million = Some(q(0, 500_000));
    let row = provider_row(&p, true);
    assert_eq!(row.input_price, "0.50");
    assert_eq!(row.output_price, "N/A");
    p.input_price_per_million = None;
    p.output_price_per_million = Some(q(3, 0));
    let row = provider_row(&p, true);
    assert_eq!(row.input_price, "N/A");
    assert_eq!(row.output_price, "3.0");
}

#[test]
fn metrics_round_to_whole_numbers() {
    let mut p = bare("Metrics");
    p.throughput_tps = Some(q(0, 500_000));
    p.latency_ms = Some(q(1, 500_000));
    let row = provider_row(&p, false);
    assert_eq!(row.throughput, "0");
    assert_eq!(row.latency, "2ms");
    p.throughput_tps = Some(q(99, 500_001));
    p.latency_ms = Some(q(0, 499_999));
    let row = provider_row(&p, false);
    assert_eq!(row.throughput, "100");
    assert_eq!(row.latency, "0ms");
}

#[test]
fn quantization_gives_sub_label() {
    let mut p = bare("Quantized");
    assert_eq!(provider_row(&p, false).sub_label, None);
    p.quantization = Some("fp8".to_string());
    assert_eq!(provider_row(&p, false).sub_label, Some("fp8".to_string()));
}

#[test]
fn selection_changes_only_highlight() {
    let mut p = bare("Sel");
    p.quantization = Some("int4".to_string());
    p.latency_ms = Some(q(12, 0));
    p.input_price_per_million = Some(q(0, 20_000));
    let item = GenericProviderListItem::new(7u32, p);
    assert!(!item.is_selected);
    let off = item.row();
    let item = item.selected(true);
    assert_eq!(item.id, 7);
    let on = item.row();
    assert!(on.selected);
    assert!(!off.selected);
    assert_eq!(on.name, off.name);
    assert_eq!(on.sub_label, off.sub_label);
    assert_eq!(on.throughput, off.throughput);
    assert_eq!(on.latency, off.latency);
    assert_eq!(on.input_price, off.input_price);
    assert_eq!(on.output_price, off.output_price);
    assert!(!item.selected(false).row().selected);
}

#[test]
fn header_and_loading_texts() {
    assert_eq!(ProviderSelectorHeader.title(), "Select Provider");
    assert_eq!(
        ProviderSelectorHeader.column_labels(),
        vec!["Provider", "Speed", "Latency", "Price"]
    );
    assert_eq!(ProviderSelectorLoading.message(), "Loading providers...");
}

#[test]
fn fixed_and_rounded_building_blocks() {
    assert_eq!(fixed_string(5, 4), "0.0005");
    assert_eq!(fixed_string(123456, 2), "1234.56");
    assert_eq!(fixed_string(0, 0), "0");
    assert_eq!(fixed_string(u64::MAX, 0), u64::MAX.to_string());
    assert_eq!(round_to_places(2_500_000, 0), 2);
    assert_eq!(round_to_places(3_500_000, 0), 4);
    assert_eq!(round_to_places(u64::MAX, 6), u64::MAX);
    assert_eq!(round_to_places(u64::MAX, 0), 18_446_744_073_710);
    assert_eq!(decimal_string(Quantity::from_micros(1_049_999), 1), "1.0");
}

#[test]
fn from_parts_rejects_overflow() {
    assert_eq!(Quantity::from_parts(2, 5).unwrap().micros, 2_000_005);
    assert!(Quantity::from_parts(u64::MAX / 1_000_000 + 1, 0).is_none());
    assert!(Quantity::from_parts(u64::MAX / 1_000_000, 999_999).is_none());
    assert_eq!(Quantity::from_parts(0, u64::MAX).unwrap().micros, u64::MAX);
}
