//! Records from an OKX `public/instruments` listing.
use vstd::prelude::*;

use crate::model::{
    is_listed, label_for, product_label, record_views, store_size, stored_size, strip_hyphens,
    texts, without_hyphens, Exchange, ProductType, RecordView, ReferenceData, ResponseError,
    SymbolMode,
};
use crate::normalize::{display_symbol, format_symbol};

verus! {

/// One entry of the `data` list. A field absent from the response is `None`.
#[derive(Debug)]
pub struct OkxInstrument {
    pub inst_id: Option<String>,
    pub base_ccy: Option<String>,
    pub quote_ccy: Option<String>,
    pub tick_sz: Option<String>,
    pub lot_sz: Option<String>,
}

/// An OKX `public/instruments` response.
#[derive(Debug)]
pub struct OkxResponse {
    pub data: Option<Vec<OkxInstrument>>,
}

pub open spec fn okx_instrument_complete(i: OkxInstrument) -> bool {
    &&& i.inst_id is Some
    &&& i.base_ccy is Some
    &&& i.quote_ccy is Some
    &&& i.tick_sz is Some
    &&& i.lot_sz is Some
}

/// An instrument is listed when its id, hyphens removed, is on the allow-list.
pub open spec fn okx_listed(allow: Seq<Seq<char>>) -> spec_fn(OkxInstrument) -> bool {
    |i: OkxInstrument| allow.contains(without_hyphens(i.inst_id->0@))
}

/// The record of a complete instrument.
pub open spec fn okx_record(i: OkxInstrument, product: ProductType, mode: SymbolMode) -> RecordView {
    RecordView {
        product_type: product,
        exchange: Exchange::Okx,
        symbol: match mode {
            SymbolMode::Raw => i.inst_id->0@,
            SymbolMode::Normalized => display_symbol(
                i.base_ccy->0@,
                i.quote_ccy->0@,
                product_label(Exchange::Okx, product),
            ),
        },
        tick_size: stored_size(mode, i.tick_sz->0@),
        lot_size: stored_size(mode, i.lot_sz->0@),
    }
}

/// The records of a complete listing: one per allow-listed instrument, in order.
pub open spec fn okx_records_of(
    list: Seq<OkxInstrument>,
    product: ProductType,
    allow: Seq<Seq<char>>,
    mode: SymbolMode,
) -> Seq<RecordView> {
    list.filter(okx_listed(allow)).map_values(|i: OkxInstrument| okx_record(i, product, mode))
}

fn okx_check_instrument(i: &OkxInstrument) -> (r: bool)
    ensures
        r == okx_instrument_complete(*i),
{
    i.inst_id.is_some() && i.base_ccy.is_some() && i.quote_ccy.is_some() && i.tick_sz.is_some()
        && i.lot_sz.is_some()
}

fn okx_first_incomplete(list: &Vec<OkxInstrument>) -> (r: Option<usize>)
    ensures
        match r {
            Some(k) => k < list@.len() && !okx_instrument_complete(list@[k as int]) && forall|j: int|
                0 <= j < k ==> okx_instrument_complete(#[trigger] list@[j]),
            None => forall|j: int|
                0 <= j < list@.len() ==> okx_instrument_complete(#[trigger] list@[j]),
        },
{
    let mut k: usize = 0;
    while k < list.len()
        invariant
            k <= list@.len(),
            forall|j: int| 0 <= j < k ==> okx_instrument_complete(#[trigger] list@[j]),
        decreases list@.len() - k,
    {
        if !okx_check_instrument(&list[k]) {
            return Some(k);
        }
        k += 1;
    }
    None
}

fn field_text(f: &Option<String>) -> (r: &str)
    ensures
        f is Some ==> r@ == f->0@,
{
    match f {
        Some(s) => s.as_str(),
        None => "",
    }
}

fn okx_record_of(i: &OkxInstrument, product: ProductType, mode: SymbolMode) -> (r: ReferenceData)
    requires
        okx_instrument_complete(*i),
    ensures
        r@ == okx_record(*i, product, mode),
{
    let symbol = match mode {
        SymbolMode::Raw => String::from_str(field_text(&i.inst_id)),
        SymbolMode::Normalized => format_symbol(
            field_text(&i.base_ccy),
            field_text(&i.quote_ccy),
            label_for(Exchange::Okx, product),
        ),
    };
    ReferenceData {
        product_type: product,
        exchange: Exchange::Okx,
        symbol,
        tick_size: store_size(mode, field_text(&i.tick_sz)),
        lot_size: store_size(mode, field_text(&i.lot_sz)),
    }
}

/// Turns an OKX listing into records for the instruments whose id, without
/// hyphens, is allow-listed. A response without its list, or with any
/// instrument lacking a field, fails whole; otherwise each allow-listed
/// instrument yields one record, in order.
pub fn okx_records(
    resp: &OkxResponse,
    product: ProductType,
    allow: &Vec<String>,
    mode: SymbolMode,
) -> (r: Result<Vec<ReferenceData>, ResponseError>)
    ensures
        resp.data is None ==> r == Err::<Vec<ReferenceData>, ResponseError>(
            ResponseError::MissingList,
        ),
        resp.data is Some ==> {
            let list = resp.data->0@;
            match r {
                Ok(v) => (forall|j: int|
                    0 <= j < list.len() ==> okx_instrument_complete(#[trigger] list[j]))
                    && record_views(v@) == okx_records_of(list, product, texts(allow@), mode),
                Err(ResponseError::IncompleteInstrument(k)) => k < list.len()
                    && !okx_instrument_complete(list[k as int]) && forall|j: int|
                    0 <= j < k ==> okx_instrument_complete(#[trigger] list[j]),
                Err(ResponseError::MissingList) => false,
            }
        },
{
    let list = match &resp.data {
        Some(l) => l,
        None => {
            return Err(ResponseError::MissingList);
        },
    };
    if let Some(k) = okx_first_incomplete(list) {
        return Err(ResponseError::IncompleteInstrument(k));
    }
    let ghost listed = okx_listed(texts(allow@));
    let ghost to_record = |i: OkxInstrument| okx_record(i, product, mode);
    let mut out: Vec<ReferenceData> = Vec::new();
    let mut k: usize = 0;
    while k < list.len()
        invariant
            k <= list@.len(),
            listed == okx_listed(texts(allow@)),
            to_record == (|i: OkxInstrument| okx_record(i, product, mode)),
            forall|j: int| 0 <= j < list@.len() ==> okx_instrument_complete(#[trigger] list@[j]),
            record_views(out@) == list@.take(k as int).filter(listed).map_values(to_record),
        decreases list@.len() - k,
    {
        let inst = &list[k];
        proof {
            assert(list@.take(k + 1) =~= list@.take(k as int).push(*inst));
            list@.take(k as int).lemma_filter_push(*inst, listed);
            list@.take(k as int).filter(listed).lemma_push_map_commute(to_record, *inst);
            assert(okx_instrument_complete(*inst));
        }
        let key = strip_hyphens(field_text(&inst.inst_id));
        if is_listed(key.as_str(), allow) {
            let rec = okx_record_of(inst, product, mode);
            let ghost before = out@;
            out.push(rec);
            assert(record_views(out@) =~= record_views(before).push(rec@));
        }
        k += 1;
    }
    assert(list@.take(list@.len() as int) =~= list@);
    Ok(out)
}

/// Every record of an OKX listing carries the requested product type and the
/// OKX exchange, and in raw mode its symbol, hyphens removed, is on the
/// allow-list.
pub proof fn lemma_okx_records_listed(
    list: Seq<OkxInstrument>,
    product: ProductType,
    allow: Seq<Seq<char>>,
    mode: SymbolMode,
    j: int,
)
    requires
        0 <= j < okx_records_of(list, product, allow, mode).len(),
    ensures
        okx_records_of(list, product, allow, mode)[j].product_type == product,
        okx_records_of(list, product, allow, mode)[j].exchange == Exchange::Okx,
        mode == SymbolMode::Raw ==> allow.contains(
            without_hyphens(okx_records_of(list, product, allow, mode)[j].symbol),
        ),
{
    list.lemma_filter_pred(okx_listed(allow), j);
}

} // verus!
