//! What each quote provider's reply means: the official rate scraped from the
//! central bank's page, the first P2P offer of the exchange, and the bitcoin
//! price turned into satoshis per dollar.
use vstd::prelude::*;
use crate::decimal::{Decimal, parsed, sats_per_unit, satoshis_per_unit};
use crate::text::{chars_of, locale_normalized, parse_decimal, parse_locale_decimal, same_text, trimmed};

verus! {

/// Where the central bank's page shows the official rate.
pub const BCV_CSS_SELECTOR: &'static str = "html > body > div:nth-of-type(4) > div:nth-of-type(1) > div:nth-of-type(2) > div:nth-of-type(1) > div:nth-of-type(1) > div:nth-of-type(1) > section:nth-of-type(1) > div:nth-of-type(1) > div:nth-of-type(2) > div:nth-of-type(1) > div:nth-of-type(7) > div:nth-of-type(1) > div:nth-of-type(1) > div:nth-of-type(2) > strong";

/// The code of a successful reply of the exchange's P2P search.
pub const BINANCE_OK_CODE: &'static str = "000000";

/// Why one provider gave no rate in one refresh.
#[derive(Clone, Copy, Debug, PartialEq, Eq, Structural)]
pub enum FetchError {
    /// The request could not be sent or timed out.
    Network,
    /// The provider answered with this unsuccessful HTTP status.
    Status(u16),
    /// The reply's body could not be read or decoded.
    Payload,
    /// The page holds no node where the rate is shown.
    NodeNotFound,
    /// The provider reported a failure in its reply.
    Rejected,
    /// The reply holds no offer.
    NoOffers,
    /// A value is not a number.
    BadNumber,
    /// A price from which no rate can be computed (zero, or too small).
    InvalidPrice,
}

/// The text of the first node that `selector` picks in the HTML document
/// `html`; none when the selector is invalid or picks nothing.
pub uninterp spec fn first_match_text(html: Seq<char>, selector: Seq<char>) -> Option<Seq<char>>;

/// Relies on scraper: `Html::parse_document`, `Selector::parse`, the first
/// element of `Html::select`, and its `text()` joined. The result depends on
/// the document and the selector alone.
#[verifier::external_body]
fn select_first_text(html: &str, selector: &str) -> (r: Option<String>)
    ensures
        match r {
            Some(t) => first_match_text(html@, selector@) == Some(t@),
            None => first_match_text(html@, selector@) is None,
        },
{
    let document = scraper::Html::parse_document(html);
    let selector = scraper::Selector::parse(selector).ok()?;
    let element = document.select(&selector).next()?;
    Some(element.text().collect::<String>())
}

/// The official rate that the text of the rate's node gives.
pub open spec fn bcv_rate_of(node_text: Option<Seq<char>>) -> Result<Decimal, FetchError> {
    match node_text {
        None => Err(FetchError::NodeNotFound),
        Some(t) => match parsed(locale_normalized(trimmed(t))) {
            Some(d) => Ok(d),
            None => Err(FetchError::BadNumber),
        },
    }
}

/// The official rate from the text of the node that shows it, written like
/// `103.456,78`; none when no node was found.
pub fn bcv_rate_from_text(node_text: Option<&str>) -> (r: Result<Decimal, FetchError>)
    ensures
        r == bcv_rate_of(
            match node_text {
                Some(t) => Some(t@),
                None => None,
            },
        ),
        r matches Ok(d) ==> d.wf(),
{
    match node_text {
        None => Err(FetchError::NodeNotFound),
        Some(t) => match parse_locale_decimal(t) {
            Some(d) => Ok(d),
            None => Err(FetchError::BadNumber),
        },
    }
}

/// The official rate shown on the central bank's page `html`.
pub fn bcv_rate_from_html(html: &str) -> (r: Result<Decimal, FetchError>)
    ensures
        r == bcv_rate_of(first_match_text(html@, BCV_CSS_SELECTOR@)),
        r matches Ok(d) ==> d.wf(),
{
    let text = select_first_text(html, BCV_CSS_SELECTOR);
    match text {
        Some(t) => bcv_rate_from_text(Some(t.as_str())),
        None => bcv_rate_from_text(None),
    }
}

/// One offer of the exchange's P2P search.
#[derive(Clone, Debug)]
pub struct BinanceAdv {
    pub price: String,
}

#[derive(Clone, Debug)]
pub struct BinanceAdvContainer {
    pub adv: BinanceAdv,
}

/// The exchange's reply to a P2P search.
#[derive(Clone, Debug)]
pub struct BinanceResponse {
    pub code: String,
    pub data: Option<Vec<BinanceAdvContainer>>,
    pub success: bool,
}

/// The rate that a reply of the P2P search gives: the price of its first
/// offer, when the reply reports success.
pub open spec fn binance_rate_of(resp: BinanceResponse) -> Result<Decimal, FetchError> {
    if !resp.success || resp.code@ != BINANCE_OK_CODE@ {
        Err(FetchError::Rejected)
    } else {
        match resp.data {
            None => Err(FetchError::NoOffers),
            Some(offers) => if offers@.len() == 0 {
                Err(FetchError::NoOffers)
            } else {
                match parsed(offers@[0].adv.price@) {
                    Some(d) => Ok(d),
                    None => Err(FetchError::BadNumber),
                }
            },
        }
    }
}

/// The P2P rate from the exchange's reply.
pub fn binance_rate(resp: &BinanceResponse) -> (r: Result<Decimal, FetchError>)
    ensures
        r == binance_rate_of(*resp),
        r matches Ok(d) ==> d.wf(),
{
    if !resp.success || !same_text(resp.code.as_str(), BINANCE_OK_CODE) {
        return Err(FetchError::Rejected);
    }
    match &resp.data {
        None => Err(FetchError::NoOffers),
        Some(offers) => {
            if offers.len() == 0 {
                Err(FetchError::NoOffers)
            } else {
                match parse_decimal(offers[0].adv.price.as_str()) {
                    Some(d) => Ok(d),
                    None => Err(FetchError::BadNumber),
                }
            }
        },
    }
}

/// The body of the P2P search: the best offer to sell USDT for VES by mobile
/// payment.
#[derive(Clone, Debug)]
pub struct BinanceP2PRequestPayload {
    pub asset: String,
    pub fiat: String,
    pub merchant_check: bool,
    pub page: u32,
    pub pay_types: Vec<String>,
    pub publisher_type: Option<String>,
    pub rows: u32,
    pub trade_type: String,
}

/// The search that the P2P rate comes from.
pub fn binance_request_payload() -> (r: BinanceP2PRequestPayload)
    ensures
        r.asset@ == "USDT"@,
        r.fiat@ == "VES"@,
        !r.merchant_check,
        r.page == 1,
        r.pay_types@.len() == 1,
        r.pay_types@[0]@ == "PagoMovil"@,
        r.publisher_type is None,
        r.rows == 1,
        r.trade_type@ == "SELL"@,
{
    let mut pay_types: Vec<String> = Vec::new();
    pay_types.push(String::from_str("PagoMovil"));
    BinanceP2PRequestPayload {
        asset: String::from_str("USDT"),
        fiat: String::from_str("VES"),
        merchant_check: false,
        page: 1,
        pay_types,
        publisher_type: None,
        rows: 1,
        trade_type: String::from_str("SELL"),
    }
}

/// Whether the market data service is asked: only with a key. Without one
/// it returns no values, which is no failure.
pub fn satoshi_provider_enabled(api_key: &str) -> (r: bool)
    ensures
        r == (api_key@.len() > 0),
{
    chars_of(api_key).len() > 0
}

/// Satoshis per dollar, given the dollar price of a bitcoin.
pub open spec fn satoshi_rate_of(btc_price: Decimal) -> Result<Decimal, FetchError> {
    match sats_per_unit(btc_price) {
        Some(q) => Ok(q),
        None => Err(FetchError::InvalidPrice),
    }
}

/// Satoshis per dollar from the dollar price of a bitcoin.
pub fn satoshi_rate(btc_price: Decimal) -> (r: Result<Decimal, FetchError>)
    requires
        btc_price.wf(),
    ensures
        r == satoshi_rate_of(btc_price),
        r matches Ok(d) ==> d.wf(),
{
    match satoshis_per_unit(btc_price) {
        Some(q) => Ok(q),
        None => Err(FetchError::InvalidPrice),
    }
}

/// Satoshis per dollar from the dollar price of a bitcoin as the market data
/// service writes it, such as `67000.5`.
pub fn satoshi_rate_from_text(btc_price: &str) -> (r: Result<Decimal, FetchError>)
    ensures
        r == match parsed(btc_price@) {
            Some(p) => satoshi_rate_of(p),
            None => Err(FetchError::BadNumber),
        },
        r matches Ok(d) ==> d.wf(),
{
    match parse_decimal(btc_price) {
        Some(p) => satoshi_rate(p),
        None => Err(FetchError::BadNumber),
    }
}

} // verus!
