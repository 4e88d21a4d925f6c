//! Records from a Binance `exchangeInfo` listing.
use vstd::prelude::*;

use crate::model::{
    is_listed, label_for, product_label, record_views, store_size, stored_size, texts, Exchange,
    ProductType, RecordView, ReferenceData, ResponseError, SymbolMode,
};
use crate::normalize::{display_symbol, format_symbol};

verus! {

/// One entry of an instrument's `filters` list. A field absent from the
/// response is `None`.
#[derive(Debug)]
pub struct BinanceFilter {
    pub filter_type: Option<String>,
    pub tick_size: Option<String>,
    pub step_size: Option<String>,
}

/// One entry of the `symbols` list.
#[derive(Debug)]
pub struct BinanceInstrument {
    pub symbol: Option<String>,
    pub base_asset: Option<String>,
    pub quote_asset: Option<String>,
    pub filters: Option<Vec<BinanceFilter>>,
}

/// A Binance `exchangeInfo` response.
#[derive(Debug)]
pub struct BinanceExchangeInfo {
    pub symbols: Option<Vec<BinanceInstrument>>,
}

pub open spec fn is_price_filter(f: BinanceFilter) -> bool {
    f.filter_type is Some && f.filter_type->0@ == "PRICE_FILTER"@
}

pub open spec fn is_lot_size_filter(f: BinanceFilter) -> bool {
    f.filter_type is Some && f.filter_type->0@ == "LOT_SIZE"@
}

/// A filter names its kind, and a price or lot-size filter carries its size.
pub open spec fn filter_complete(f: BinanceFilter) -> bool {
    &&& f.filter_type is Some
    &&& is_price_filter(f) ==> f.tick_size is Some
    &&& is_lot_size_filter(f) ==> f.step_size is Some
}

pub open spec fn instrument_complete(i: BinanceInstrument) -> bool {
    &&& i.symbol is Some
    &&& i.base_asset is Some
    &&& i.quote_asset is Some
    &&& i.filters is Some
    &&& forall|k: int|
        0 <= k < i.filters->0@.len() ==> filter_complete(#[trigger] i.filters->0@[k])
}

/// The tick size of the last price filter, empty where there is none.
pub open spec fn last_tick_size(fs: Seq<BinanceFilter>) -> Seq<char>
    decreases fs.len(),
{
    if fs.len() == 0 {
        Seq::empty()
    } else if is_price_filter(fs.last()) {
        fs.last().tick_size->0@
    } else {
        last_tick_size(fs.drop_last())
    }
}

/// The step size of the last lot-size filter, empty where there is none.
pub open spec fn last_step_size(fs: Seq<BinanceFilter>) -> Seq<char>
    decreases fs.len(),
{
    if fs.len() == 0 {
        Seq::empty()
    } else if is_lot_size_filter(fs.last()) {
        fs.last().step_size->0@
    } else {
        last_step_size(fs.drop_last())
    }
}

pub open spec fn binance_listed(allow: Seq<Seq<char>>) -> spec_fn(BinanceInstrument) -> bool {
    |i: BinanceInstrument| allow.contains(i.symbol->0@)
}

/// The record of a complete instrument.
pub open spec fn binance_record(
    i: BinanceInstrument,
    product: ProductType,
    mode: SymbolMode,
) -> RecordView {
    RecordView {
        product_type: product,
        exchange: Exchange::Binance,
        symbol: match mode {
            SymbolMode::Raw => i.symbol->0@,
            SymbolMode::Normalized => display_symbol(
                i.base_asset->0@,
                i.quote_asset->0@,
                product_label(Exchange::Binance, product),
            ),
        },
        tick_size: stored_size(mode, last_tick_size(i.filters->0@)),
        lot_size: stored_size(mode, last_step_size(i.filters->0@)),
    }
}

/// The records of a complete listing: one per allow-listed instrument, in order.
pub open spec fn binance_records_of(
    list: Seq<BinanceInstrument>,
    product: ProductType,
    allow: Seq<Seq<char>>,
    mode: SymbolMode,
) -> Seq<RecordView> {
    list.filter(binance_listed(allow)).map_values(
        |i: BinanceInstrument| binance_record(i, product, mode),
    )
}

fn filter_is(f: &BinanceFilter, kind: &str) -> (r: bool)
    ensures
        r == (f.filter_type is Some && f.filter_type->0@ == kind@),
{
    match &f.filter_type {
        Some(t) => {
            let k = String::from_str(kind);
            *t == k
        },
        None => false,
    }
}

fn check_instrument(i: &BinanceInstrument) -> (r: bool)
    ensures
        r == instrument_complete(*i),
{
    if i.symbol.is_none() || i.base_asset.is_none() || i.quote_asset.is_none() {
        return false;
    }
    let fs = match &i.filters {
        Some(fs) => fs,
        None => {
            return false;
        },
    };
    let mut k: usize = 0;
    while k < fs.len()
        invariant
            k <= fs@.len(),
            i.filters == Some(*fs),
            forall|j: int| 0 <= j < k ==> filter_complete(#[trigger] fs@[j]),
        decreases fs@.len() - k,
    {
        let f = &fs[k];
        if f.filter_type.is_none() || (filter_is(f, "PRICE_FILTER") && f.tick_size.is_none()) || (
        filter_is(f, "LOT_SIZE") && f.step_size.is_none()) {
            assert(!filter_complete(fs@[k as int]));
            assert(i.filters->0@[k as int] == fs@[k as int]);
            return false;
        }
        k += 1;
    }
    true
}

/// The position of the first incomplete instrument, if any.
fn first_incomplete(list: &Vec<BinanceInstrument>) -> (r: Option<usize>)
    ensures
        match r {
            Some(k) => k < list@.len() && !instrument_complete(list@[k as int]) && forall|j: int|
                0 <= j < k ==> instrument_complete(#[trigger] list@[j]),
            None => forall|j: int| 0 <= j < list@.len() ==> instrument_complete(#[trigger] list@[j]),
        },
{
    let mut k: usize = 0;
    while k < list.len()
        invariant
            k <= list@.len(),
            forall|j: int| 0 <= j < k ==> instrument_complete(#[trigger] list@[j]),
        decreases list@.len() - k,
    {
        if !check_instrument(&list[k]) {
            return Some(k);
        }
        k += 1;
    }
    None
}

/// The tick size and step size of a complete filter list.
fn sizes_of(fs: &Vec<BinanceFilter>) -> (r: (String, String))
    requires
        forall|k: int| 0 <= k < fs@.len() ==> filter_complete(#[trigger] fs@[k]),
    ensures
        r.0@ == last_tick_size(fs@),
        r.1@ == last_step_size(fs@),
{
    let mut tick = String::new();
    let mut step = String::new();
    let mut k: usize = 0;
    while k < fs.len()
        invariant
            k <= fs@.len(),
            forall|j: int| 0 <= j < fs@.len() ==> filter_complete(#[trigger] fs@[j]),
            tick@ == last_tick_size(fs@.take(k as int)),
            step@ == last_step_size(fs@.take(k as int)),
        decreases fs@.len() - k,
    {
        let f = &fs[k];
        assert(fs@.take(k + 1).drop_last() =~= fs@.take(k as int));
        assert(filter_complete(fs@[k as int]));
        if filter_is(f, "PRICE_FILTER") {
            if let Some(t) = &f.tick_size {
                tick = t.clone();
            }
        }
        if filter_is(f, "LOT_SIZE") {
            if let Some(s) = &f.step_size {
                step = s.clone();
            }
        }
        k += 1;
    }
    assert(fs@.take(fs@.len() as int) =~= fs@);
    (tick, step)
}

fn record_of(
    i: &BinanceInstrument,
    product: ProductType,
    mode: SymbolMode,
) -> (r: ReferenceData)
    requires
        instrument_complete(*i),
    ensures
        r@ == binance_record(*i, product, mode),
{
    let empty: Vec<BinanceFilter> = Vec::new();
    let fs = match &i.filters {
        Some(fs) => fs,
        None => &empty,
    };
    let (tick, step) = sizes_of(fs);
    let symbol = match mode {
        SymbolMode::Raw => match &i.symbol {
            Some(s) => s.clone(),
            None => String::new(),
        },
        SymbolMode::Normalized => {
            let base = match &i.base_asset {
                Some(s) => s.as_str(),
                None => "",
            };
            let quote = match &i.quote_asset {
                Some(s) => s.as_str(),
                None => "",
            };
            format_symbol(base, quote, label_for(Exchange::Binance, product))
        },
    };
    ReferenceData {
        product_type: product,
        exchange: Exchange::Binance,
        symbol,
        tick_size: store_size(mode, tick.as_str()),
        lot_size: store_size(mode, step.as_str()),
    }
}

/// Turns a Binance listing into records for the allow-listed instruments.
/// A response without its list, or with any instrument lacking a field, fails
/// whole; otherwise each allow-listed instrument yields one record, in order.
pub fn binance_records(
    info: &BinanceExchangeInfo,
    product: ProductType,
    allow: &Vec<String>,
    mode: SymbolMode,
) -> (r: Result<Vec<ReferenceData>, ResponseError>)
    ensures
        info.symbols is None ==> r == Err::<Vec<ReferenceData>, ResponseError>(
            ResponseError::MissingList,
        ),
        info.symbols is Some ==> {
            let list = info.symbols->0@;
            match r {
                Ok(v) => (forall|j: int|
                    0 <= j < list.len() ==> instrument_complete(#[trigger] list[j]))
                    && record_views(v@) == binance_records_of(list, product, texts(allow@), mode),
                Err(ResponseError::IncompleteInstrument(k)) => k < list.len()
                    && !instrument_complete(list[k as int]) && forall|j: int|
                    0 <= j < k ==> instrument_complete(#[trigger] list[j]),
                Err(ResponseError::MissingList) => false,
            }
        },
{
    let list = match &info.symbols {
        Some(l) => l,
        None => {
            return Err(ResponseError::MissingList);
        },
    };
    if let Some(k) = first_incomplete(list) {
        return Err(ResponseError::IncompleteInstrument(k));
    }
    let ghost listed = binance_listed(texts(allow@));
    let ghost to_record = |i: BinanceInstrument| binance_record(i, product, mode);
    let mut out: Vec<ReferenceData> = Vec::new();
    let mut k: usize = 0;
    while k < list.len()
        invariant
            k <= list@.len(),
            listed == binance_listed(texts(allow@)),
            to_record == (|i: BinanceInstrument| binance_record(i, product, mode)),
            forall|j: int| 0 <= j < list@.len() ==> instrument_complete(#[trigger] list@[j]),
            record_views(out@) == list@.take(k as int).filter(listed).map_values(to_record),
        decreases list@.len() - k,
    {
        let inst = &list[k];
        proof {
            assert(list@.take(k + 1) =~= list@.take(k as int).push(*inst));
            list@.take(k as int).lemma_filter_push(*inst, listed);
            list@.take(k as int).filter(listed).lemma_push_map_commute(to_record, *inst);
            assert(instrument_complete(*inst));
        }
        let symbol = match &inst.symbol {
            Some(s) => s.as_str(),
            None => "",
        };
        let listed_here = is_listed(symbol, allow);
        if listed_here {
            let rec = record_of(inst, product, mode);
            let ghost before = out@;
            out.push(rec);
            assert(record_views(out@) =~= record_views(before).push(rec@));
        }
        k += 1;
    }
    assert(list@.take(list@.len() as int) =~= list@);
    Ok(out)
}

/// Every record of a Binance listing carries the requested product type and
/// the Binance exchange, and in raw mode its symbol is on the allow-list.
pub proof fn lemma_binance_records_listed(
    list: Seq<BinanceInstrument>,
    product: ProductType,
    allow: Seq<Seq<char>>,
    mode: SymbolMode,
    j: int,
)
    requires
        0 <= j < binance_records_of(list, product, allow, mode).len(),
    ensures
        binance_records_of(list, product, allow, mode)[j].product_type == product,
        binance_records_of(list, product, allow, mode)[j].exchange == Exchange::Binance,
        mode == SymbolMode::Raw ==> allow.contains(
            binance_records_of(list, product, allow, mode)[j].symbol,
        ),
{
    list.lemma_filter_pred(binance_listed(allow), j);
}

pub open spec fn record_has_symbol(s: Seq<char>) -> spec_fn(RecordView) -> bool {
    |r: RecordView| r.symbol == s
}

pub open spec fn instrument_has_symbol(s: Seq<char>) -> spec_fn(BinanceInstrument) -> bool {
    |i: BinanceInstrument| i.symbol->0@ == s
}

pub open spec fn records_with_symbol(rs: Seq<RecordView>, s: Seq<char>) -> nat {
    rs.filter(record_has_symbol(s)).len()
}

pub open spec fn instruments_with_symbol(list: Seq<BinanceInstrument>, s: Seq<char>) -> nat {
    list.filter(instrument_has_symbol(s)).len()
}

/// In raw mode a symbol on the allow-list gets exactly as many records as the
/// listing has instruments of that symbol (one, where the exchange lists it
/// once), however many other instruments the listing holds; a symbol off the
/// allow-list gets none.
pub proof fn lemma_binance_symbol_count(
    list: Seq<BinanceInstrument>,
    product: ProductType,
    allow: Seq<Seq<char>>,
    s: Seq<char>,
)
    ensures
        records_with_symbol(binance_records_of(list, product, allow, SymbolMode::Raw), s) == if allow.contains(s) {
            instruments_with_symbol(list, s)
        } else {
            0
        },
    decreases list.len(),
{
    let listed = binance_listed(allow);
    let to_record = |i: BinanceInstrument| binance_record(i, product, SymbolMode::Raw);
    let same_record = record_has_symbol(s);
    let same_instrument = instrument_has_symbol(s);
    if list.len() == 0 {
        assert(list.filter(listed) =~= Seq::<BinanceInstrument>::empty());
        assert(list.filter(same_instrument) =~= Seq::<BinanceInstrument>::empty());
        assert(binance_records_of(list, product, allow, SymbolMode::Raw) =~= Seq::<RecordView>::empty());
        assert(Seq::<RecordView>::empty().filter(same_record) =~= Seq::<RecordView>::empty());
    } else {
        let init = list.drop_last();
        let x = list.last();
        lemma_binance_symbol_count(init, product, allow, s);
        assert(list =~= init.push(x));
        init.lemma_filter_push(x, listed);
        init.lemma_filter_push(x, same_instrument);
        init.filter(listed).lemma_push_map_commute(to_record, x);
        init.filter(listed).map_values(to_record).lemma_filter_push(to_record(x), same_record);
        let before = binance_records_of(init, product, allow, SymbolMode::Raw);
        let after = binance_records_of(list, product, allow, SymbolMode::Raw);
        assert(to_record(x).symbol == x.symbol->0@);
        if listed(x) {
            assert(after == before.push(to_record(x)));
            assert(after.filter(same_record) == if same_instrument(x) {
                before.filter(same_record).push(to_record(x))
            } else {
                before.filter(same_record)
            });
        } else {
            assert(after == before);
            assert(same_instrument(x) ==> !allow.contains(s));
        }
    }
}

} // verus!
