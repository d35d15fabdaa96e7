//! What a row of the provider selector shows, and the texts of its header and
//! of its loading state.
use vstd::prelude::*;
use crate::decimal::{Quantity, decimal_string, decimal_text};

verus! {

/// A model provider as the selector receives it.
pub struct ModelProviderInfo {
    pub display_name: String,
    pub quantization: Option<String>,
    /// Tokens per second.
    pub throughput_tps: Option<Quantity>,
    /// Milliseconds.
    pub latency_ms: Option<Quantity>,
    /// Dollars per million input tokens.
    pub input_price_per_million: Option<Quantity>,
    /// Dollars per million output tokens.
    pub output_price_per_million: Option<Quantity>,
}

/// Places after the point for a price: four below a hundredth, two below one,
/// one from one on.
pub open spec fn price_places(micros: nat) -> nat {
    if micros < 10_000 {
        4
    } else if micros < 1_000_000 {
        2
    } else {
        1
    }
}

/// The text of a price per million tokens.
pub open spec fn price_text(micros: nat) -> Seq<char> {
    decimal_text(micros, price_places(micros))
}

/// The text of an optional price: "N/A" when it is absent.
pub open spec fn price_or_na(p: Option<Quantity>) -> Seq<char> {
    match p {
        Some(q) => price_text(q.micros as nat),
        None => seq!['N', '/', 'A'],
    }
}

/// The millionths of an optional metric, zero when it is absent.
pub open spec fn metric_micros(m: Option<Quantity>) -> nat {
    match m {
        Some(q) => q.micros as nat,
        None => 0,
    }
}

/// The text of an optional metric rounded to a whole number.
pub open spec fn metric_text(m: Option<Quantity>) -> Seq<char> {
    decimal_text(metric_micros(m), 0)
}

/// What one row shows, as text.
pub struct ProviderRowView {
    pub name: Seq<char>,
    pub sub_label: Option<Seq<char>>,
    pub throughput: Seq<char>,
    pub latency: Seq<char>,
    pub input_price: Seq<char>,
    pub output_price: Seq<char>,
    pub selected: bool,
}

/// The text that an optional string holds, if any.
pub open spec fn opt_view(o: Option<String>) -> Option<Seq<char>> {
    match o {
        Some(s) => Some(s@),
        None => None,
    }
}

/// The row that shows `p`, highlighted when `selected`.
pub open spec fn row_of(p: ModelProviderInfo, selected: bool) -> ProviderRowView {
    ProviderRowView {
        name: p.display_name@,
        sub_label: opt_view(p.quantization),
        throughput: metric_text(p.throughput_tps),
        latency: metric_text(p.latency_ms) + seq!['m', 's'],
        input_price: price_or_na(p.input_price_per_million),
        output_price: price_or_na(p.output_price_per_million),
        selected,
    }
}

/// The texts of one row. Throughput is shown beside the unit "tok/s", and
/// each price between "$" and "/M in" or "/M out".
pub struct ProviderRow {
    pub name: String,
    pub sub_label: Option<String>,
    pub throughput: String,
    pub latency: String,
    pub input_price: String,
    pub output_price: String,
    pub selected: bool,
}

impl View for ProviderRow {
    type V = ProviderRowView;

    open spec fn view(&self) -> ProviderRowView {
        ProviderRowView {
            name: self.name@,
            sub_label: opt_view(self.sub_label),
            throughput: self.throughput@,
            latency: self.latency@,
            input_price: self.input_price@,
            output_price: self.output_price@,
            selected: self.selected,
        }
    }
}

/// Writes a price per million tokens with as many places as its size calls for.
pub fn format_price_per_million(price_per_million: Quantity) -> (r: String)
    ensures
        r@ == price_text(price_per_million.micros as nat),
{
    let places: u64 = if price_per_million.micros < 10_000 {
        4
    } else if price_per_million.micros < 1_000_000 {
        2
    } else {
        1
    };
    decimal_string(price_per_million, places)
}

fn format_price_or_na(p: &Option<Quantity>) -> (r: String)
    ensures
        r@ == price_or_na(*p),
{
    match p {
        Some(q) => format_price_per_million(Quantity { micros: q.micros }),
        None => {
            proof {
                reveal_strlit("N/A");
            }
            String::from_str("N/A")
        },
    }
}

fn format_metric(m: &Option<Quantity>) -> (r: String)
    ensures
        r@ == metric_text(*m),
{
    let micros: u64 = match m {
        Some(q) => q.micros,
        None => 0,
    };
    decimal_string(Quantity { micros }, 0)
}

fn clone_opt(o: &Option<String>) -> (r: Option<String>)
    ensures
        opt_view(r) == opt_view(*o),
{
    match o {
        Some(s) => Some(s.clone()),
        None => None,
    }
}

/// Builds the texts of the row that shows `provider`.
pub fn provider_row(provider: &ModelProviderInfo, selected: bool) -> (r: ProviderRow)
    ensures
        r@ == row_of(*provider, selected),
{
    let mut latency = format_metric(&provider.latency_ms);
    proof {
        reveal_strlit("ms");
    }
    latency.append("ms");
    let r = ProviderRow {
        name: provider.display_name.clone(),
        sub_label: clone_opt(&provider.quantization),
        throughput: format_metric(&provider.throughput_tps),
        latency,
        input_price: format_price_or_na(&provider.input_price_per_million),
        output_price: format_price_or_na(&provider.output_price_per_million),
        selected,
    };
    assert(r.latency@ =~= row_of(*provider, selected).latency);
    r
}

/// One selectable row of the provider list: an identity that the host keeps
/// stable across frames, the provider it shows, and whether it is highlighted.
pub struct GenericProviderListItem<Id> {
    pub id: Id,
    pub provider: ModelProviderInfo,
    pub is_selected: bool,
}

impl<Id> GenericProviderListItem<Id> {
    pub fn new(id: Id, provider: ModelProviderInfo) -> (r: Self)
        ensures
            r.id == id,
            r.provider == provider,
            !r.is_selected,
    {
        GenericProviderListItem { id, provider, is_selected: false }
    }

    pub fn selected(self, selected: bool) -> (r: Self)
        ensures
            r.id == self.id,
            r.provider == self.provider,
            r.is_selected == selected,
    {
        let mut this = self;
        this.is_selected = selected;
        this
    }

    /// The texts that this item shows.
    pub fn row(&self) -> (r: ProviderRow)
        ensures
            r@ == row_of(self.provider, self.is_selected),
    {
        provider_row(&self.provider, self.is_selected)
    }
}

/// The header above the provider list: a title and the column labels.
pub struct ProviderSelectorHeader;

impl ProviderSelectorHeader {
    pub fn title(&self) -> (r: String)
        ensures
            r@ == seq!['S', 'e', 'l', 'e', 'c', 't', ' ', 'P', 'r', 'o', 'v', 'i', 'd', 'e', 'r'],
    {
        proof {
            reveal_strlit("Select Provider");
        }
        String::from_str("Select Provider")
    }

    /// The label of the left column, then those of the right columns in order.
    pub fn column_labels(&self) -> (r: Vec<String>)
        ensures
            r@.len() == 4,
            r@[0]@ == seq!['P', 'r', 'o', 'v', 'i', 'd', 'e', 'r'],
            r@[1]@ == seq!['S', 'p', 'e', 'e', 'd'],
            r@[2]@ == seq!['L', 'a', 't', 'e', 'n', 'c', 'y'],
            r@[3]@ == seq!['P', 'r', 'i', 'c', 'e'],
    {
        proof {
            reveal_strlit("Provider");
            reveal_strlit("Speed");
            reveal_strlit("Latency");
            reveal_strlit("Price");
        }
        let mut v: Vec<String> = Vec::new();
        v.push(String::from_str("Provider"));
        v.push(String::from_str("Speed"));
        v.push(String::from_str("Latency"));
        v.push(String::from_str("Price"));
        v
    }
}

/// What the selector shows while the providers are being fetched.
pub struct ProviderSelectorLoading;

impl ProviderSelectorLoading {
    pub fn message(&self) -> (r: String)
        ensures
            r@ == seq![
                'L', 'o', 'a', 'd', 'i', 'n', 'g', ' ', 'p', 'r', 'o', 'v', 'i', 'd', 'e', 'r', 's',
                '.', '.', '.',
            ],
    {
        proof {
            reveal_strlit("Loading providers...");
        }
        String::from_str("Loading providers...")
    }
}

} // verus!
