//! The layout of the composite tray icon: one segment per configured rate,
//! an icon then its value, left to right, and the tooltip that goes with it.
//! Glyph measuring and pixel work are the host's; this module decides sizes,
//! positions, text and when to fall back.
use vstd::prelude::*;
use crate::decimal::{Decimal, two_places, two_places_chars};
use crate::store::RateStore;
use crate::text::{chars_of, string_of};

verus! {

/// Height of the tray icon, and of every icon and text inside it.
pub const ICON_HEIGHT: u32 = 16;

/// Space between an icon and its text, and between two segments.
pub const PADDING: u32 = 4;

/// Least width given to a segment's text.
pub const MIN_TEXT_WIDTH: u32 = 10;

/// Text of the fallback icon when no rate has a quote.
pub const NO_DATA_ICON_TEXT: &'static str = "No Data";

/// Tooltip when no rate has a quote.
pub const NO_DATA_TOOLTIP: &'static str = "No data";

/// Text of the fallback icon when the measurements do not match the rates.
pub const MEASURE_ERROR_ICON_TEXT: &'static str = "Error";

/// Tooltip when the measurements do not match the rates.
pub const MEASURE_ERROR_TOOLTIP: &'static str = "Error generating icon";

/// Text of the fallback icon when the layout has no width.
pub const EMPTY_LAYOUT_ICON_TEXT: &'static str = "...";

/// Tooltip when the layout has no width.
pub const EMPTY_LAYOUT_TOOLTIP: &'static str = "Error generating icon";

/// One configured rate: its label, the asset of its icon, and the symbol
/// under which the store keeps it.
#[derive(Clone, Debug)]
pub struct CurrencyMapping {
    pub label: String,
    pub icon_asset: String,
    pub symbol: String,
}

/// The rates shown, in the order shown.
pub fn currency_mappings() -> (r: Vec<CurrencyMapping>)
    ensures
        r@.len() == 3,
        r@[0].label@ == "BCV"@ && r@[0].icon_asset@ == "ved.png"@ && r@[0].symbol@ == "bcv"@,
        r@[1].label@ == "BIN"@ && r@[1].icon_asset@ == "binance.png"@ && r@[1].symbol@
            == "binance"@,
        r@[2].label@ == "SAT"@ && r@[2].icon_asset@ == "satoshi.png"@ && r@[2].symbol@
            == "satoshi"@,
{
    let mut r: Vec<CurrencyMapping> = Vec::new();
    r.push(
        CurrencyMapping {
            label: String::from_str("BCV"),
            icon_asset: String::from_str("ved.png"),
            symbol: String::from_str("bcv"),
        },
    );
    r.push(
        CurrencyMapping {
            label: String::from_str("BIN"),
            icon_asset: String::from_str("binance.png"),
            symbol: String::from_str("binance"),
        },
    );
    r.push(
        CurrencyMapping {
            label: String::from_str("SAT"),
            icon_asset: String::from_str("satoshi.png"),
            symbol: String::from_str("satoshi"),
        },
    );
    r
}

/// A configured rate as shown: its label, value and icon asset. A rate whose
/// symbol has no quote shows zero, is degraded, and gets no icon.
#[derive(Clone, Debug)]
pub struct RateInfo {
    pub currency: String,
    pub rate: Decimal,
    pub icon_asset_path: String,
    pub degraded: bool,
}

pub open spec fn zero() -> Decimal {
    Decimal { negative: false, digits: 0, scale: 0 }
}

/// `r` shows the mapping `m` against the table `t`.
pub open spec fn shows(m: CurrencyMapping, t: Map<Seq<char>, (Decimal, Seq<char>)>, r: RateInfo) -> bool {
    &&& r.currency@ == m.label@
    &&& r.icon_asset_path@ == m.icon_asset@
    &&& if t.contains_key(m.symbol@) {
        r.rate == t[m.symbol@].0 && !r.degraded
    } else {
        r.rate == zero() && r.degraded
    }
}

/// The rates to show: one per mapping, in the mappings' order, whether or
/// not its symbol has a quote.
pub fn fetch_rates(store: &RateStore, mappings: &Vec<CurrencyMapping>) -> (r: Vec<RateInfo>)
    requires
        store.wf(),
    ensures
        r@.len() == mappings@.len(),
        forall|i: int| 0 <= i < r@.len() ==> shows(mappings@[i], store@, #[trigger] r@[i]),
{
    let mut r: Vec<RateInfo> = Vec::new();
    let mut i: usize = 0;
    while i < mappings.len()
        invariant
            store.wf(),
            i <= mappings@.len(),
            r@.len() == i,
            forall|k: int| 0 <= k < i ==> shows(mappings@[k], store@, #[trigger] r@[k]),
        decreases mappings@.len() - i,
    {
        let m = &mappings[i];
        let found = store.latest(m.symbol.as_str());
        let info = match found {
            Some(q) => RateInfo {
                currency: m.label.clone(),
                rate: q.value,
                icon_asset_path: m.icon_asset.clone(),
                degraded: false,
            },
            None => RateInfo {
                currency: m.label.clone(),
                rate: Decimal::zero(),
                icon_asset_path: m.icon_asset.clone(),
                degraded: true,
            },
        };
        r.push(info);
        i = i + 1;
    }
    r
}

/// `width * target / height`, rounded half up, at least 1 and at most the
/// largest `u32`.
pub open spec fn scaled_width(width: u32, height: u32, target: u32) -> nat {
    let q = (2 * width as nat * target as nat + height as nat) / (2 * height as nat);
    if q == 0 {
        1
    } else if q > u32::MAX {
        u32::MAX as nat
    } else {
        q as nat
    }
}

/// Width of an icon of `width` by `height` pixels once scaled to `target`
/// pixels high with its aspect ratio kept; none when a size is zero.
pub fn scaled_icon_width(width: u32, height: u32, target: u32) -> (r: Option<u32>)
    ensures
        width == 0 || height == 0 || target == 0 ==> r is None,
        width > 0 && height > 0 && target > 0 ==> r == Some(scaled_width(width, height, target) as u32),
{
    if width == 0 || height == 0 || target == 0 {
        return None;
    }
    proof {
        assert(width as int * target as int <= 0xffff_ffff * 0xffff_ffff) by (nonlinear_arith)
            requires
                width <= 0xffff_ffff,
                target <= 0xffff_ffff,
        ;
    }
    let wt: u128 = width as u128 * target as u128;
    let q: u128 = (2 * wt + height as u128) / (2 * height as u128);
    assert(wt as nat == width as nat * target as nat);
    assert(2 * width as nat * target as nat == 2 * (width as nat * target as nat)) by (nonlinear_arith);
    assert(q == (2 * width as nat * target as nat + height as nat) / (2 * height as nat));
    if q == 0 {
        Some(1)
    } else if q > u32::MAX as u128 {
        Some(u32::MAX)
    } else {
        Some(q as u32)
    }
}

/// What the host measured of one segment: the width of its scaled icon, none
/// when the icon could not be loaded, and the width of its rendered text.
#[derive(Clone, Copy, Debug, PartialEq, Eq)]
pub struct SegmentMetrics {
    pub icon_width: Option<u32>,
    pub text_width: u32,
}

/// Whether the icon of `rate` is loaded and shown: not for a degraded rate.
pub fn wants_icon(rate: &RateInfo) -> (r: bool)
    ensures
        r == !rate.degraded,
{
    !rate.degraded
}

/// The icon that a segment shows: none for a degraded rate.
pub open spec fn shown_icon(rate: RateInfo, m: SegmentMetrics) -> Option<u32> {
    if rate.degraded {
        None
    } else {
        m.icon_width
    }
}

/// Width taken by a segment's icon: at least 1, and half the icon height as a
/// placeholder when there is none.
pub open spec fn icon_slot(icon: Option<u32>) -> nat {
    match icon {
        Some(w) => if w == 0 {
            1
        } else {
            w as nat
        },
        None => (ICON_HEIGHT / 2) as nat,
    }
}

/// Width taken by a segment's text.
pub open spec fn text_slot(text_width: u32) -> nat {
    if text_width < MIN_TEXT_WIDTH {
        MIN_TEXT_WIDTH as nat
    } else {
        text_width as nat
    }
}

/// Width of one segment: icon, padding, text.
pub open spec fn segment_width(rate: RateInfo, m: SegmentMetrics) -> nat {
    icon_slot(shown_icon(rate, m)) + PADDING as nat + text_slot(m.text_width)
}

/// Width of the first `n` segments with the padding between them.
pub open spec fn prefix_width(rates: Seq<RateInfo>, ms: Seq<SegmentMetrics>, n: nat) -> nat
    decreases n,
{
    if n == 0 {
        0
    } else {
        prefix_width(rates, ms, (n - 1) as nat) + (if n > 1 {
            PADDING as nat
        } else {
            0
        }) + segment_width(rates[n - 1], ms[n - 1])
    }
}

/// Width of the canvas: all segments and the padding between them, at most
/// the largest `u32`.
pub open spec fn canvas_width(rates: Seq<RateInfo>, ms: Seq<SegmentMetrics>) -> nat {
    let w = prefix_width(rates, ms, ms.len());
    if w > u32::MAX {
        u32::MAX as nat
    } else {
        w
    }
}

/// Where segment `i` starts.
pub open spec fn segment_x(rates: Seq<RateInfo>, ms: Seq<SegmentMetrics>, i: nat) -> nat {
    prefix_width(rates, ms, i) + if i > 0 {
        PADDING as nat
    } else {
        0
    }
}

/// Where one segment's icon and text are drawn, when they fit on the canvas.
#[derive(Clone, Copy, Debug, PartialEq, Eq)]
pub struct SlotPlacement {
    /// Left edge of the icon; none when there is no icon or it does not fit.
    pub icon_x: Option<u32>,
    /// Left edge of the text; none when it does not fit.
    pub text_x: Option<u32>,
    /// Width of the text's own image.
    pub text_width: u32,
}

/// `x` as a left edge for something `w` wide on a canvas `width` wide.
pub open spec fn fit(x: nat, w: nat, width: nat) -> Option<u32> {
    if x + w <= width {
        Some(x as u32)
    } else {
        None
    }
}

pub open spec fn placement(
    rates: Seq<RateInfo>,
    ms: Seq<SegmentMetrics>,
    i: nat,
    width: nat,
) -> SlotPlacement {
    let x = segment_x(rates, ms, i);
    let icon = shown_icon(rates[i as int], ms[i as int]);
    let tx = x + icon_slot(icon) + PADDING as nat;
    SlotPlacement {
        icon_x: match icon {
            Some(_) => fit(x, icon_slot(icon), width),
            None => None,
        },
        text_x: fit(tx, text_slot(ms[i as int].text_width), width),
        text_width: text_slot(ms[i as int].text_width) as u32,
    }
}

/// `LABEL: value` for one rate.
pub open spec fn tooltip_entry(r: RateInfo) -> Seq<char> {
    r.currency@ + seq![':', ' '] + two_places(r.rate)
}

/// The entries of `rates`, joined with ` | `.
pub open spec fn tooltip_of(rates: Seq<RateInfo>) -> Seq<char>
    decreases rates.len(),
{
    if rates.len() == 0 {
        Seq::empty()
    } else if rates.len() == 1 {
        tooltip_entry(rates[0])
    } else {
        tooltip_of(rates.drop_last()) + seq![' ', '|', ' '] + tooltip_entry(rates.last())
    }
}

pub open spec fn all_degraded(rates: Seq<RateInfo>) -> bool {
    forall|i: int| 0 <= i < rates.len() ==> (#[trigger] rates[i]).degraded
}

/// What to show: a fallback icon with a short text, or the composite icon.
#[derive(Debug)]
pub enum CompositePlan {
    Fallback { icon_text: String, tooltip: String },
    Composite { width: u32, height: u32, slots: Vec<SlotPlacement>, tooltip: String },
}

/// `plan` is the layout of `rates` as measured in `ms`, one measurement per
/// rate; measurements that do not match the rates are a failed render.
pub open spec fn plan_of(plan: CompositePlan, rates: Seq<RateInfo>, ms: Seq<SegmentMetrics>) -> bool {
    if all_degraded(rates) {
        plan matches CompositePlan::Fallback { icon_text, tooltip } && icon_text@
            == NO_DATA_ICON_TEXT@ && tooltip@ == NO_DATA_TOOLTIP@
    } else if rates.len() != ms.len() {
        plan matches CompositePlan::Fallback { icon_text, tooltip } && icon_text@
            == MEASURE_ERROR_ICON_TEXT@ && tooltip@ == MEASURE_ERROR_TOOLTIP@
    } else if canvas_width(rates, ms) == 0 {
        plan matches CompositePlan::Fallback { icon_text, tooltip } && icon_text@
            == EMPTY_LAYOUT_ICON_TEXT@ && tooltip@ == EMPTY_LAYOUT_TOOLTIP@
    } else {
        plan matches CompositePlan::Composite { width, height, slots, tooltip } && width
            == canvas_width(rates, ms) && height == ICON_HEIGHT && slots@.len() == ms.len()
            && (forall|i: int|
            0 <= i < ms.len() ==> #[trigger] slots@[i] == placement(
                rates,
                ms,
                i as nat,
                width as nat,
            )) && tooltip@ == tooltip_of(rates)
    }
}

/// The tooltip: `LABEL: value` for each rate, in order, joined with ` | `.
pub fn tooltip(rates: &Vec<RateInfo>) -> (r: String)
    ensures
        r@ == tooltip_of(rates@),
{
    let mut out: Vec<char> = Vec::new();
    let mut i: usize = 0;
    while i < rates.len()
        invariant
            i <= rates@.len(),
            out@ == tooltip_of(rates@.subrange(0, i as int)),
        decreases rates@.len() - i,
    {
        let ghost before = out@;
        if i > 0 {
            out.push(' ');
            out.push('|');
            out.push(' ');
        }
        let mut label = chars_of(rates[i].currency.as_str());
        out.append(&mut label);
        out.push(':');
        out.push(' ');
        let mut value = two_places_chars(rates[i].rate);
        out.append(&mut value);
        proof {
            let s = rates@.subrange(0, i as int + 1);
            assert(s.drop_last() =~= rates@.subrange(0, i as int));
            assert(s.last() == rates@[i as int]);
            if i == 0 {
                assert(out@ =~= tooltip_entry(s[0]));
            } else {
                assert(out@ =~= before + seq![' ', '|', ' '] + tooltip_entry(s.last()));
            }
        }
        i = i + 1;
    }
    assert(rates@.subrange(0, rates@.len() as int) =~= rates@);
    string_of(&out)
}

/// The text drawn for a value: two fractional digits and two spaces after.
pub fn segment_text(value: Decimal) -> (r: String)
    ensures
        r@ == two_places(value) + seq![' ', ' '],
{
    let mut v = two_places_chars(value);
    v.push(' ');
    v.push(' ');
    string_of(&v)
}

/// Bound on what one segment adds to the canvas width.
pub open spec fn segment_bound() -> int {
    0x4_0000_0000
}

/// The icon a segment shows, and the widths its icon and text take.
fn slot_widths(rate: &RateInfo, m: &SegmentMetrics) -> (r: (Option<u32>, u128, u128))
    ensures
        r.0 == shown_icon(*rate, *m),
        r.1 == icon_slot(r.0),
        r.2 == text_slot(m.text_width),
{
    let icon = if rate.degraded {
        None
    } else {
        m.icon_width
    };
    let iw: u128 = match icon {
        Some(w) => if w == 0 {
            1
        } else {
            w as u128
        },
        None => (ICON_HEIGHT / 2) as u128,
    };
    let tw: u128 = if m.text_width < MIN_TEXT_WIDTH {
        MIN_TEXT_WIDTH as u128
    } else {
        m.text_width as u128
    };
    (icon, iw, tw)
}

/// Lays out the composite icon for `rates`, whose segments measure `metrics`:
/// the fallback when no rate has a quote, when the measurements do not match
/// the rates, or when nothing has width; else the
/// canvas width, where each icon and text goes, and the tooltip.
pub fn plan_composite(rates: &Vec<RateInfo>, metrics: &Vec<SegmentMetrics>) -> (r: CompositePlan)
    ensures
        plan_of(r, rates@, metrics@),
{
    let mut live = false;
    let mut i: usize = 0;
    while i < rates.len()
        invariant
            i <= rates@.len(),
            live == exists|k: int| 0 <= k < i && !(#[trigger] rates@[k]).degraded,
        decreases rates@.len() - i,
    {
        if !rates[i].degraded {
            live = true;
        }
        i = i + 1;
    }
    if !live {
        return CompositePlan::Fallback {
            icon_text: String::from_str(NO_DATA_ICON_TEXT),
            tooltip: String::from_str(NO_DATA_TOOLTIP),
        };
    }
    if rates.len() != metrics.len() {
        return CompositePlan::Fallback {
            icon_text: String::from_str(MEASURE_ERROR_ICON_TEXT),
            tooltip: String::from_str(MEASURE_ERROR_TOOLTIP),
        };
    }
    let n = metrics.len();
    let mut xs: Vec<u128> = Vec::new();
    let mut total: u128 = 0;
    let mut i: usize = 0;
    while i < n
        invariant
            i <= n == rates@.len() == metrics@.len(),
            total == prefix_width(rates@, metrics@, i as nat),
            total <= i as int * segment_bound(),
            xs@.len() == i,
            forall|k: int| 0 <= k < i ==> #[trigger] xs@[k] == segment_x(rates@, metrics@, k as nat),
            forall|k: int| 0 <= k < i ==> xs@[k] <= k * segment_bound() + PADDING,
        decreases n - i,
    {
        let x: u128 = if i > 0 {
            total + PADDING as u128
        } else {
            total
        };
        xs.push(x);
        let (icon, iw, tw) = slot_widths(&rates[i], &metrics[i]);
        total = x + iw + PADDING as u128 + tw;
        i = i + 1;
    }
    let width: u32 = if total > u32::MAX as u128 {
        u32::MAX
    } else {
        total as u32
    };
    if width == 0 {
        return CompositePlan::Fallback {
            icon_text: String::from_str(EMPTY_LAYOUT_ICON_TEXT),
            tooltip: String::from_str(EMPTY_LAYOUT_TOOLTIP),
        };
    }
    let mut slots: Vec<SlotPlacement> = Vec::new();
    let mut i: usize = 0;
    while i < n
        invariant
            i <= n == rates@.len() == metrics@.len(),
            xs@.len() == n,
            forall|k: int| 0 <= k < n ==> #[trigger] xs@[k] == segment_x(rates@, metrics@, k as nat),
            forall|k: int| 0 <= k < n ==> xs@[k] <= k * segment_bound() + PADDING,
            width as nat == canvas_width(rates@, metrics@),
            slots@.len() == i,
            forall|k: int|
                0 <= k < i ==> #[trigger] slots@[k] == placement(
                    rates@,
                    metrics@,
                    k as nat,
                    width as nat,
                ),
        decreases n - i,
    {
        let x = xs[i];
        let (icon, iw, tw) = slot_widths(&rates[i], &metrics[i]);
        let icon_x: Option<u32> = match icon {
            Some(_) => if x + iw <= width as u128 {
                Some(x as u32)
            } else {
                None
            },
            None => None,
        };
        let tx: u128 = x + iw + PADDING as u128;
        let text_x: Option<u32> = if tx + tw <= width as u128 {
            Some(tx as u32)
        } else {
            None
        };
        slots.push(SlotPlacement { icon_x, text_x, text_width: tw as u32 });
        i = i + 1;
    }
    CompositePlan::Composite { width, height: ICON_HEIGHT, slots, tooltip: tooltip(rates) }
}

/// Width of the fallback icon around a text `text_width` pixels wide: the
/// text, at least the least text width, with padding on both sides.
pub open spec fn fallback_width_of(text_width: u32) -> nat {
    let w = text_slot(text_width) + 2 * PADDING as nat;
    if w > u32::MAX {
        u32::MAX as nat
    } else {
        w
    }
}

/// Width of the fallback icon around a text `text_width` pixels wide.
pub fn fallback_width(text_width: u32) -> (r: u32)
    ensures
        r == fallback_width_of(text_width),
        r > 0,
{
    let t: u64 = if text_width < MIN_TEXT_WIDTH {
        MIN_TEXT_WIDTH as u64
    } else {
        text_width as u64
    };
    let w: u64 = t + 2 * PADDING as u64;
    if w > u32::MAX as u64 {
        u32::MAX
    } else {
        w as u32
    }
}

/// A configured rate whose symbol has no quote is still shown, in its own
/// place: with the value zero, degraded, and without an icon.
pub proof fn law_absent_quote_shown_as_zero(
    mappings: Seq<CurrencyMapping>,
    table: Map<Seq<char>, (Decimal, Seq<char>)>,
    rates: Seq<RateInfo>,
    ms: Seq<SegmentMetrics>,
    plan: CompositePlan,
    i: int,
)
    requires
        rates.len() == mappings.len(),
        forall|k: int| 0 <= k < rates.len() ==> shows(mappings[k], table, #[trigger] rates[k]),
        0 <= i < rates.len(),
        !table.contains_key(mappings[i].symbol@),
        plan_of(plan, rates, ms),
    ensures
        rates[i].rate == zero(),
        rates[i].degraded,
        rates[i].currency@ == mappings[i].label@,
        shown_icon(rates[i], ms[i]) is None,
        plan matches CompositePlan::Composite { slots, .. } ==> slots@.len() == mappings.len()
            && slots@[i].icon_x is None,
{
    assert(shows(mappings[i], table, rates[i]));
    if let CompositePlan::Composite { width, slots, .. } = plan {
        assert(slots@[i] == placement(rates, ms, i as nat, width as nat));
    }
}

proof fn lemma_prefix_positive(rates: Seq<RateInfo>, ms: Seq<SegmentMetrics>, n: nat)
    requires
        n > 0,
    ensures
        prefix_width(rates, ms, n) >= MIN_TEXT_WIDTH,
{
}

/// The composite icon is never zero pixels wide: when every rate is degraded
/// the layout falls back, a composite has a positive width and the icon
/// height, and with one measurement per rate and some rate quoted the layout
/// is a composite.
pub proof fn law_never_zero_width(rates: Seq<RateInfo>, ms: Seq<SegmentMetrics>, plan: CompositePlan)
    requires
        plan_of(plan, rates, ms),
    ensures
        all_degraded(rates) ==> plan is Fallback,
        !all_degraded(rates) && ms.len() == rates.len() ==> plan is Composite,
        plan matches CompositePlan::Composite { width, height, .. } ==> width > 0 && height
            == ICON_HEIGHT,
{
    if !all_degraded(rates) && ms.len() == rates.len() {
        lemma_prefix_positive(rates, ms, ms.len());
    }
}

/// Sum of the widths of the first `n` segments.
pub open spec fn segments_sum(rates: Seq<RateInfo>, ms: Seq<SegmentMetrics>, n: nat) -> nat
    decreases n,
{
    if n == 0 {
        0
    } else {
        segments_sum(rates, ms, (n - 1) as nat) + segment_width(rates[n - 1], ms[n - 1])
    }
}

proof fn lemma_prefix_is_sum(rates: Seq<RateInfo>, ms: Seq<SegmentMetrics>, n: nat)
    requires
        n > 0,
    ensures
        prefix_width(rates, ms, n) == segments_sum(rates, ms, n) + PADDING * (n - 1),
    decreases n,
{
    let m = (n - 1) as nat;
    assert(segments_sum(rates, ms, n) == segments_sum(rates, ms, m) + segment_width(
        rates[m as int],
        ms[m as int],
    ));
    if n > 1 {
        lemma_prefix_is_sum(rates, ms, m);
        assert(prefix_width(rates, ms, n) == prefix_width(rates, ms, m) + PADDING + segment_width(
            rates[m as int],
            ms[m as int],
        ));
    } else {
        assert(prefix_width(rates, ms, 0) == 0);
        assert(segments_sum(rates, ms, 0) == 0);
        assert(prefix_width(rates, ms, n) == segment_width(rates[0], ms[0]));
        assert(segments_sum(rates, ms, n) == segment_width(rates[0], ms[0]));
    }
}

/// A composite icon is as wide as its segments together, each icon, padding
/// and text, with one padding between two segments, as long as that sum fits
/// in a `u32`.
pub proof fn law_width_is_sum_of_segments(
    rates: Seq<RateInfo>,
    ms: Seq<SegmentMetrics>,
    plan: CompositePlan,
)
    requires
        plan_of(plan, rates, ms),
        ms.len() == rates.len(),
        !all_degraded(rates),
        segments_sum(rates, ms, ms.len()) + PADDING * (ms.len() - 1) <= u32::MAX,
    ensures
        plan matches CompositePlan::Composite { width, slots, .. } && width == segments_sum(
            rates,
            ms,
            ms.len(),
        ) + PADDING * (ms.len() - 1) && slots@.len() == rates.len(),
{
    lemma_prefix_positive(rates, ms, ms.len());
    lemma_prefix_is_sum(rates, ms, ms.len());
}

/// The layout is reproducible: the same rates and measurements give the same
/// width, placements and tooltip, or the same fallback.
pub proof fn law_layout_reproducible(
    rates: Seq<RateInfo>,
    ms: Seq<SegmentMetrics>,
    a: CompositePlan,
    b: CompositePlan,
)
    requires
        plan_of(a, rates, ms),
        plan_of(b, rates, ms),
    ensures
        match (a, b) {
            (
                CompositePlan::Composite { width: w1, height: h1, slots: s1, tooltip: t1 },
                CompositePlan::Composite { width: w2, height: h2, slots: s2, tooltip: t2 },
            ) => w1 == w2 && h1 == h2 && s1@ == s2@ && t1@ == t2@,
            (
                CompositePlan::Fallback { icon_text: x1, tooltip: t1 },
                CompositePlan::Fallback { icon_text: x2, tooltip: t2 },
            ) => x1@ == x2@ && t1@ == t2@,
            _ => false,
        },
{
    if let (
        CompositePlan::Composite { width: w1, slots: s1, .. },
        CompositePlan::Composite { slots: s2, .. },
    ) = (a, b) {
        assert(s1@ =~= s2@);
    }
}

} // verus!
