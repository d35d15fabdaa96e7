//! What holds of every price text and every row.
use vstd::prelude::*;
use crate::decimal::{
    Quantity, digits_of, fixed_text, is_digit, lemma_fixed_text_shape, lemma_fixed_text_value,
    lemma_pow10_positive, lemma_rounded_shown, rounded, shown_micros, text_micros,
};
use crate::provider::{ModelProviderInfo, price_places, price_text, row_of};

verus! {

/// A price's text has exactly four places after the point below a hundredth,
/// two from a hundredth up to one, and one from one on; every other character
/// is a digit.
pub proof fn lemma_price_places(price: Quantity)
    ensures
        ({
            let m = price.micros as nat;
            let s = price_text(m);
            let k = price_places(m);
            &&& m < 10_000 ==> k == 4
            &&& 10_000 <= m < 1_000_000 ==> k == 2
            &&& 1_000_000 <= m ==> k == 1
            &&& s.len() >= k + 2
            &&& s[s.len() - k - 1] == '.'
            &&& forall|i: int| 0 <= i < s.len() && i != s.len() - k - 1 ==> is_digit(#[trigger] s[i])
        }),
{
    let m = price.micros as nat;
    lemma_fixed_text_shape(rounded(m, price_places(m)), price_places(m));
}

/// Reading a price's text back as a number gives the value that the text
/// shows, and formatting that number again gives the same text, as long as
/// rounding did not carry the price into the next range of places.
pub proof fn lemma_price_text_round_trip(price: Quantity)
    requires
        price_places(text_micros(price_text(price.micros as nat))) == price_places(
            price.micros as nat,
        ),
    ensures
        text_micros(price_text(price.micros as nat)) == shown_micros(
            price.micros as nat,
            price_places(price.micros as nat),
        ),
        price_text(text_micros(price_text(price.micros as nat))) == price_text(
            price.micros as nat,
        ),
{
    let m = price.micros as nat;
    let k = price_places(m);
    let u = rounded(m, k);
    lemma_fixed_text_value(u, k);
    lemma_rounded_shown(u, k);
}

/// An absent input or output price shows as "N/A", whatever else the provider
/// holds.
pub proof fn lemma_absent_prices_show_na(p: ModelProviderInfo, selected: bool)
    ensures
        p.input_price_per_million is None ==> row_of(p, selected).input_price == seq!['N', '/', 'A'],
        p.output_price_per_million is None ==> row_of(p, selected).output_price == seq![
            'N',
            '/',
            'A',
        ],
{
}

/// An absent throughput shows as "0", and an absent latency as "0ms".
pub proof fn lemma_absent_metrics_show_zero(p: ModelProviderInfo, selected: bool)
    ensures
        p.throughput_tps is None ==> row_of(p, selected).throughput == seq!['0'],
        p.latency_ms is None ==> row_of(p, selected).latency == seq!['0', 'm', 's'],
{
    lemma_pow10_positive(6);
    assert(rounded(0, 0) == 0);
    assert(fixed_text(0, 0) == digits_of(0));
    assert(seq!['0'] + seq!['m', 's'] =~= seq!['0', 'm', 's']);
}

/// A quantization shows as a sub-label under the name; without one there is
/// no sub-label at all.
pub proof fn lemma_quantization_sub_label(p: ModelProviderInfo, selected: bool)
    ensures
        p.quantization is None <==> row_of(p, selected).sub_label is None,
        p.quantization is Some ==> row_of(p, selected).sub_label == Some(
            p.quantization->Some_0@,
        ),
{
}

/// The highlight follows the selection flag, and changing the flag changes
/// nothing else that the row shows.
pub proof fn lemma_selection_changes_only_highlight(p: ModelProviderInfo, a: bool, b: bool)
    ensures
        row_of(p, a).selected == a,
        row_of(p, a).name == row_of(p, b).name,
        row_of(p, a).sub_label == row_of(p, b).sub_label,
        row_of(p, a).throughput == row_of(p, b).throughput,
        row_of(p, a).latency == row_of(p, b).latency,
        row_of(p, a).input_price == row_of(p, b).input_price,
        row_of(p, a).output_price == row_of(p, b).output_price,
{
}

} // verus!
