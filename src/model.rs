//! Records, their keys, and the symbol allow-list.
use vstd::prelude::*;

verus! {

/// The kind of instrument a record describes.
#[derive(Clone, Copy, Debug, PartialEq, Eq, Structural)]
pub enum ProductType {
    Spot,
    Perp,
}

/// The exchange a record comes from.
#[derive(Clone, Copy, Debug, PartialEq, Eq, Structural)]
pub enum Exchange {
    Binance,
    Okx,
}

/// How records are written: with the exchange's own symbol and size strings
/// as received, or with a display symbol and canonical decimal sizes.
#[derive(Clone, Copy, Debug, PartialEq, Eq, Structural)]
pub enum SymbolMode {
    Raw,
    Normalized,
}

pub open spec fn product_type_name(p: ProductType) -> Seq<char> {
    match p {
        ProductType::Spot => seq!['s', 'p', 'o', 't'],
        ProductType::Perp => seq!['p', 'e', 'r', 'p'],
    }
}

pub open spec fn exchange_name(e: Exchange) -> Seq<char> {
    match e {
        Exchange::Binance => seq!['b', 'i', 'n', 'a', 'n', 'c', 'e'],
        Exchange::Okx => seq!['o', 'k', 'x'],
    }
}

/// The product label that ends a display symbol. OKX swap listings carry the
/// SPOT label although their product type is perp: stored symbols keep it.
pub open spec fn product_label(e: Exchange, p: ProductType) -> Seq<char> {
    match (e, p) {
        (Exchange::Binance, ProductType::Perp) => seq!['P', 'E', 'R', 'P'],
        _ => seq!['S', 'P', 'O', 'T'],
    }
}

impl ProductType {
    /// The stored name: "spot" or "perp".
    pub fn as_str(&self) -> (r: &'static str)
        ensures
            r@ == product_type_name(*self),
    {
        proof {
            reveal_strlit("spot");
            reveal_strlit("perp");
        }
        match self {
            ProductType::Spot => "spot",
            ProductType::Perp => "perp",
        }
    }
}

impl Exchange {
    /// The stored name: "binance" or "okx".
    pub fn as_str(&self) -> (r: &'static str)
        ensures
            r@ == exchange_name(*self),
    {
        proof {
            reveal_strlit("binance");
            reveal_strlit("okx");
        }
        match self {
            Exchange::Binance => "binance",
            Exchange::Okx => "okx",
        }
    }
}

/// The label that ends the display symbols of one exchange's product listing.
pub fn label_for(exchange: Exchange, product: ProductType) -> (r: &'static str)
    ensures
        r@ == product_label(exchange, product),
{
    proof {
        reveal_strlit("SPOT");
        reveal_strlit("PERP");
    }
    match (exchange, product) {
        (Exchange::Binance, ProductType::Perp) => "PERP",
        _ => "SPOT",
    }
}

/// One instrument's reference data. Stored rows are keyed by
/// (product_type, exchange, symbol).
#[derive(Debug, PartialEq, Eq)]
pub struct ReferenceData {
    pub product_type: ProductType,
    pub exchange: Exchange,
    pub symbol: String,
    pub tick_size: String,
    pub lot_size: String,
}

pub struct RecordView {
    pub product_type: ProductType,
    pub exchange: Exchange,
    pub symbol: Seq<char>,
    pub tick_size: Seq<char>,
    pub lot_size: Seq<char>,
}

impl View for ReferenceData {
    type V = RecordView;

    open spec fn view(&self) -> RecordView {
        RecordView {
            product_type: self.product_type,
            exchange: self.exchange,
            symbol: self.symbol@,
            tick_size: self.tick_size@,
            lot_size: self.lot_size@,
        }
    }
}

pub open spec fn record_views(v: Seq<ReferenceData>) -> Seq<RecordView> {
    v.map_values(|r: ReferenceData| r@)
}

pub open spec fn texts(v: Seq<String>) -> Seq<Seq<char>> {
    v.map_values(|s: String| s@)
}

/// The pairs synchronized by default.
pub open spec fn default_symbol_list() -> Seq<Seq<char>> {
    seq!["BTCUSDT"@, "ETHUSDT"@, "SOLUSDT"@, "LINKUSDT"@, "BNBUSDT"@, "AVAXUSDT"@]
}

/// The default allow-list of concatenated pair symbols.
pub fn default_symbols() -> (r: Vec<String>)
    ensures
        texts(r@) == default_symbol_list(),
{
    let r = vec![
        String::from_str("BTCUSDT"),
        String::from_str("ETHUSDT"),
        String::from_str("SOLUSDT"),
        String::from_str("LINKUSDT"),
        String::from_str("BNBUSDT"),
        String::from_str("AVAXUSDT"),
    ];
    assert(texts(r@) =~= default_symbol_list());
    r
}

/// Whether `symbol` is on the allow-list.
pub fn is_listed(symbol: &str, allow: &Vec<String>) -> (r: bool)
    ensures
        r == texts(allow@).contains(symbol@),
{
    let key = String::from_str(symbol);
    let mut i: usize = 0;
    while i < allow.len()
        invariant
            i <= allow@.len(),
            key@ == symbol@,
            forall|j: int| 0 <= j < i ==> allow@[j]@ != symbol@,
        decreases allow@.len() - i,
    {
        if allow[i] == key {
            assert(texts(allow@)[i as int] == symbol@);
            return true;
        }
        i += 1;
    }
    assert forall|j: int| 0 <= j < texts(allow@).len() implies texts(allow@)[j] != symbol@ by {
        assert(allow@[j]@ != symbol@);
    }
    false
}

/// `s` with every hyphen removed.
pub open spec fn without_hyphens(s: Seq<char>) -> Seq<char> {
    s.filter(|c: char| c != '-')
}

/// Removes the hyphens of an instrument id: "BTC-USDT" becomes "BTCUSDT".
pub fn strip_hyphens(id: &str) -> (r: String)
    ensures
        r@ == without_hyphens(id@),
{
    let ghost s = id@;
    let n = id.unicode_len();
    let mut out = String::new();
    let mut i: usize = 0;
    while i < n
        invariant
            i <= n,
            n == s.len(),
            s == id@,
            out@ == without_hyphens(s.take(i as int)),
        decreases n - i,
    {
        let c = id.get_char(i);
        proof {
            assert(s.take(i + 1) =~= s.take(i as int).push(c));
            s.take(i as int).lemma_filter_push(c, |c: char| c != '-');
        }
        if c != '-' {
            let piece = id.substring_char(i, i + 1);
            assert(piece@ =~= seq![c]);
            out.append(piece);
        }
        i += 1;
    }
    assert(s.take(n as int) =~= s);
    out
}

} // verus!

verus! {

/// Why an exchange response yields no records.
#[derive(Clone, Copy, Debug, PartialEq, Eq, Structural)]
pub enum ResponseError {
    /// The response has no instrument list.
    MissingList,
    /// The instrument at this position lacks a field that every instrument needs.
    IncompleteInstrument(usize),
}

/// The size string a record stores for a size received as `s`.
pub open spec fn stored_size(mode: SymbolMode, s: Seq<char>) -> Seq<char> {
    match mode {
        SymbolMode::Raw => s,
        SymbolMode::Normalized => crate::normalize::decimal_text(s),
    }
}

/// Stores a received size string as `mode` asks.
pub fn store_size(mode: SymbolMode, s: &str) -> (r: String)
    ensures
        r@ == stored_size(mode, s@),
{
    match mode {
        SymbolMode::Raw => String::from_str(s),
        SymbolMode::Normalized => crate::normalize::remove_trailing_zeroes(s),
    }
}

} // verus!
