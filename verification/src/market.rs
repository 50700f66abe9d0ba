//! Reading the NASDAQ market data: where to ask for it, when an answer
//! counts as a success, which texts the prices are read from, and which
//! chart points fall on the full hour.
use vstd::prelude::*;
use vstd::string::*;
use crate::text::{unicode_white_space, free_of, lemma_split_pieces, lemma_dollars_removed, first_piece, first_word, first_word_of, second_piece, split_first_piece, split_second_piece, trim_leading_dollars, trim_start_char, trim_whitespace, trim_ws};

verus! {

/// The address of the quote summary of `symbol`.
pub open spec fn quote_info_address(symbol: Seq<char>) -> Seq<char> {
    "https://api.nasdaq.com/api/quote/"@ + symbol + "/info?assetclass=stocks"@
}

/// The address of the intraday price chart of `symbol`.
pub open spec fn quote_chart_address(symbol: Seq<char>) -> Seq<char> {
    "https://api.nasdaq.com/api/quote/"@ + symbol + "/chart?assetclass=stocks"@
}

/// Builds the address of the quote summary of `symbol`.
pub fn quote_info_url(symbol: &str) -> (url: String)
    ensures
        url@ == quote_info_address(symbol@),
{
    let mut url = String::from_str("https://api.nasdaq.com/api/quote/");
    url.append(symbol);
    url.append("/info?assetclass=stocks");
    url
}

/// Builds the address of the intraday price chart of `symbol`.
pub fn quote_chart_url(symbol: &str) -> (url: String)
    ensures
        url@ == quote_chart_address(symbol@),
{
    let mut url = String::from_str("https://api.nasdaq.com/api/quote/");
    url.append(symbol);
    url.append("/chart?assetclass=stocks");
    url
}

/// An HTTP status code in the success class (2xx).
pub open spec fn success_status(code: u16) -> bool {
    200 <= code <= 299
}

/// Whether an HTTP answer with this status code succeeded. A symbol is
/// valid exactly when its quote summary is answered with such a code.
pub fn is_success_status(code: u16) -> (ok: bool)
    ensures
        ok == success_status(code),
{
    200 <= code && code <= 299
}

/// The error that the market-data queries answer with.
#[derive(Clone, Copy, Debug, PartialEq, Eq, Structural)]
pub enum MarketDataError {
    /// The data service did not deliver usable data.
    Unavailable,
}

/// The text shown for each market-data error.
pub open spec fn market_error_text(e: MarketDataError) -> Seq<char> {
    match e {
        MarketDataError::Unavailable => "Error fetching data from NASDAQ API"@,
    }
}

impl MarketDataError {
    /// The message shown to the caller for this error.
    pub fn message(&self) -> (m: String)
        ensures
            m@ == market_error_text(*self),
    {
        match self {
            MarketDataError::Unavailable => String::from_str("Error fetching data from NASDAQ API"),
        }
    }
}

/// What the quote summary holds, as far as the portfolio reads it: the
/// service's own result code (`status.rCode`), the last sale price
/// (`data.primaryData.lastSalePrice`) and the day's price range
/// (`data.keyStats.dayrange.value`), each absent where the answer has no
/// such number or text.
pub struct QuoteSnapshot {
    pub r_code: Option<u64>,
    pub last_sale_price: Option<String>,
    pub day_range: Option<String>,
}

/// The price texts read from a quote summary, before they are turned into
/// numbers. A range bound is absent where the day range is missing, and the
/// highest price also where the range holds no `'-'`.
pub struct QuoteTexts {
    pub current_price: String,
    pub lowest_price: Option<String>,
    pub highest_price: Option<String>,
}

/// The text of an optional string, empty when there is none.
pub open spec fn text_or_empty(t: Option<String>) -> Seq<char> {
    match t {
        Some(s) => s@,
        None => Seq::empty(),
    }
}

/// The text of the current price: the last sale price without its `'$'` signs.
pub open spec fn current_price_text(q: QuoteSnapshot) -> Seq<char> {
    trim_start_char(text_or_empty(q.last_sale_price), '$')
}

/// The text of the day's lowest price: what precedes the first `'-'` of the
/// day range, trimmed.
pub open spec fn lowest_price_text(q: QuoteSnapshot) -> Option<Seq<char>> {
    match q.day_range {
        Some(r) => Some(trim_ws(first_piece(r@, '-'))),
        None => None,
    }
}

/// The text of the day's highest price: what follows the first `'-'` of the
/// day range (up to a second one), trimmed.
pub open spec fn highest_price_text(q: QuoteSnapshot) -> Option<Seq<char>> {
    match q.day_range {
        Some(r) => match second_piece(r@, '-') {
            Some(p) => Some(trim_ws(p)),
            None => None,
        },
        None => None,
    }
}

/// Whether the quote summary reports success in its own result code.
pub open spec fn quote_succeeded(q: QuoteSnapshot) -> bool {
    q.r_code == Some(200u64)
}

/// Reads the price texts out of a quote summary. The summary is refused
/// unless its result code is 200.
pub fn read_quote(q: &QuoteSnapshot) -> (r: Result<QuoteTexts, MarketDataError>)
    ensures
        r is Ok <==> quote_succeeded(*q),
        r matches Err(e) ==> e == MarketDataError::Unavailable,
        r matches Ok(t) ==> {
            &&& t.current_price@ == current_price_text(*q)
            &&& t.lowest_price is Some <==> lowest_price_text(*q) is Some
            &&& t.lowest_price matches Some(low) ==> low@ == lowest_price_text(*q)->0
            &&& t.highest_price is Some <==> highest_price_text(*q) is Some
            &&& t.highest_price matches Some(high) ==> high@ == highest_price_text(*q)->0
        },
{
    match q.r_code {
        Some(code) => {
            if code != 200 {
                return Err(MarketDataError::Unavailable);
            }
        },
        None => {
            return Err(MarketDataError::Unavailable);
        },
    }
    let sale: &str = match &q.last_sale_price {
        Some(s) => s.as_str(),
        None => "",
    };
    proof {
        reveal_strlit("");
    }
    let current_price = String::from_str(trim_leading_dollars(sale));
    let (lowest_price, highest_price) = match &q.day_range {
        Some(range) => {
            let range = range.as_str();
            let low = String::from_str(trim_whitespace(split_first_piece(range, '-')));
            let high = match split_second_piece(range, '-') {
                Some(piece) => Some(String::from_str(trim_whitespace(piece))),
                None => None,
            };
            (Some(low), high)
        },
        None => (None, None),
    };
    Ok(QuoteTexts { current_price, lowest_price, highest_price })
}

/// One point of the price chart: its date and time, and the price then.
#[allow(non_snake_case)]
#[derive(Debug)]
pub struct HistoricalPricePoint {
    pub dateTime: String,
    pub value: String,
}

/// A chart entry, which carries its price point under `z`.
#[derive(Debug)]
pub struct ChartPoint {
    pub z: HistoricalPricePoint,
}

/// The data part of a chart answer.
#[derive(Debug)]
pub struct ApiData {
    pub chart: Vec<ChartPoint>,
}

/// A chart answer of the data service.
#[derive(Debug)]
pub struct ApiResponse {
    pub data: ApiData,
}

/// The minute field of a point's date and time: the second `':'`-separated
/// piece of its first word. The outer `None` is a time without a first word,
/// the inner one a first word without a `':'`.
pub open spec fn minute_field(date_time: Seq<char>) -> Option<Option<Seq<char>>> {
    match first_word(date_time) {
        Some(w) => Some(second_piece(w, ':')),
        None => None,
    }
}

/// A date and time that can be read: it has no first word, or a first word
/// with a minute field.
pub open spec fn readable_time(date_time: Seq<char>) -> bool {
    !(minute_field(date_time) matches Some(None))
}

/// A date and time on the full hour: its minute field is `00`.
pub open spec fn on_the_hour(date_time: Seq<char>) -> bool {
    minute_field(date_time) == Some(Some(seq!['0', '0']))
}

/// The predicate "the point lies on the full hour".
pub open spec fn hourly_point() -> spec_fn(HistoricalPricePoint) -> bool {
    |p: HistoricalPricePoint| on_the_hour(p.dateTime@)
}

/// The price points of a chart, in chart order.
pub open spec fn chart_points(chart: Seq<ChartPoint>) -> Seq<HistoricalPricePoint> {
    chart.map_values(|c: ChartPoint| c.z)
}

/// Whether the minute field `m` reads `00`.
fn is_zero_minute(m: &str) -> (r: bool)
    ensures
        r == (m@ == seq!['0', '0']),
{
    if m.unicode_len() != 2 {
        return false;
    }
    let zero = m.get_char(0) == '0' && m.get_char(1) == '0';
    proof {
        if zero {
            assert(m@ =~= seq!['0', '0']);
        }
    }
    zero
}

/// Selects the chart points that lie on the full hour, keeping their order:
/// the price history in one-hour steps. A point whose time has a first word
/// without a minute field cannot be read, and then there is no answer.
pub fn hourly_points(response: &ApiResponse) -> (r: Option<Vec<HistoricalPricePoint>>)
    ensures
        r is Some <==> (forall|i: int|
            0 <= i < response.data.chart@.len() ==> #[trigger] readable_time(
                chart_points(response.data.chart@)[i].dateTime@,
            )),
        r matches Some(v) ==> v@ == chart_points(response.data.chart@).filter(hourly_point()),
{
    let chart = &response.data.chart;
    let ghost points = chart_points(chart@);
    let mut out: Vec<HistoricalPricePoint> = Vec::new();
    let mut i: usize = 0;
    proof {
        assert(points.take(0) =~= Seq::<HistoricalPricePoint>::empty());
        reveal_with_fuel(Seq::filter, 1);
    }
    while i < chart.len()
        invariant
            i <= chart@.len(),
            chart@ == response.data.chart@,
            points == chart_points(chart@),
            points.len() == chart@.len(),
            out@ == points.take(i as int).filter(hourly_point()),
            forall|j: int| 0 <= j < i ==> #[trigger] readable_time(points[j].dateTime@),
        decreases chart@.len() - i,
    {
        let point = &chart[i].z;
        assert(points[i as int] == *point);
        let mut keep = false;
        match first_word_of(point.dateTime.as_str()) {
            None => {},
            Some(word) => match split_second_piece(word, ':') {
                None => {
                    assert(!readable_time(chart_points(response.data.chart@)[i as int].dateTime@));
                    return None;
                },
                Some(minute) => {
                    keep = is_zero_minute(minute);
                },
            },
        }
        proof {
            assert(keep == on_the_hour(point.dateTime@));
            points.take(i as int).lemma_filter_push(points[i as int], hourly_point());
            assert(points.take(i as int).push(points[i as int]) =~= points.take(i + 1));
        }
        if keep {
            out.push(
                HistoricalPricePoint { dateTime: point.dateTime.clone(), value: point.value.clone() },
            );
        }
        i = i + 1;
    }
    proof {
        assert(points.take(chart@.len() as int) =~= points);
    }
    Some(out)
}

/// The price history holds exactly the full hours of the chart: every point
/// it keeps lies on the full hour and comes from the chart, and every chart
/// point on the full hour is kept.
pub proof fn lemma_hourly_history(chart: Seq<ChartPoint>)
    ensures
        forall|i: int|
            0 <= i < chart_points(chart).filter(hourly_point()).len() ==> {
                let p = #[trigger] chart_points(chart).filter(hourly_point())[i];
                &&& on_the_hour(p.dateTime@)
                &&& chart_points(chart).contains(p)
            },
        forall|i: int|
            0 <= i < chart.len() && on_the_hour(#[trigger] chart[i].z.dateTime@)
                ==> chart_points(chart).filter(hourly_point()).contains(chart[i].z),
{
    let points = chart_points(chart);
    let hourly = points.filter(hourly_point());
    assert forall|i: int| 0 <= i < hourly.len() implies {
        &&& on_the_hour(#[trigger] hourly[i].dateTime@)
        &&& points.contains(hourly[i])
    } by {
        points.lemma_filter_pred(hourly_point(), i);
        assert(hourly.contains(hourly[i]));
        points.lemma_filter_contains_rev(hourly_point(), hourly[i]);
    }
    assert forall|i: int| 0 <= i < chart.len() && on_the_hour(#[trigger] chart[i].z.dateTime@)
        implies hourly.contains(chart[i].z) by {
        assert(points[i] == chart[i].z);
        points.lemma_filter_contains(hourly_point(), i);
    }
}

/// The addresses hold the whole symbol: the quote address is the service's
/// quote path (33 characters), then every character of the symbol, then
/// `/info?assetclass=stocks`; the chart address likewise ends in
/// `/chart?assetclass=stocks`. So different symbols get different addresses.
pub proof fn lemma_addresses_hold_the_symbol(symbol: Seq<char>, other: Seq<char>)
    ensures
        quote_info_address(symbol).len() == 33 + symbol.len() + 23,
        quote_info_address(symbol).take(33) == "https://api.nasdaq.com/api/quote/"@,
        quote_info_address(symbol).subrange(33, 33 + symbol.len() as int) == symbol,
        quote_info_address(symbol).skip(33 + symbol.len() as int) == "/info?assetclass=stocks"@,
        quote_chart_address(symbol).len() == 33 + symbol.len() + 24,
        quote_chart_address(symbol).take(33) == "https://api.nasdaq.com/api/quote/"@,
        quote_chart_address(symbol).subrange(33, 33 + symbol.len() as int) == symbol,
        quote_chart_address(symbol).skip(33 + symbol.len() as int) == "/chart?assetclass=stocks"@,
        quote_info_address(symbol) == quote_info_address(other) ==> symbol == other,
        quote_chart_address(symbol) == quote_chart_address(other) ==> symbol == other,
{
    reveal_strlit("https://api.nasdaq.com/api/quote/");
    reveal_strlit("/info?assetclass=stocks");
    reveal_strlit("/chart?assetclass=stocks");
    let p = "https://api.nasdaq.com/api/quote/"@;
    let i = "/info?assetclass=stocks"@;
    let c = "/chart?assetclass=stocks"@;
    assert((p + symbol + i).take(33) =~= p);
    assert((p + symbol + i).subrange(33, 33 + symbol.len() as int) =~= symbol);
    assert((p + symbol + i).skip(33 + symbol.len() as int) =~= i);
    assert((p + symbol + c).take(33) =~= p);
    assert((p + symbol + c).subrange(33, 33 + symbol.len() as int) =~= symbol);
    assert((p + symbol + c).skip(33 + symbol.len() as int) =~= c);
    assert((p + other + i).subrange(33, 33 + other.len() as int) =~= other);
    assert((p + other + c).subrange(33, 33 + other.len() as int) =~= other);
}

/// A request succeeds exactly when its status code is one of 200 to 299.
pub proof fn lemma_success_is_2xx(code: u16)
    ensures
        success_status(code) <==> (200 <= code && code < 300),
{
}

/// A quote summary is refused exactly when its result code is not 200.
pub proof fn lemma_quote_refused_unless_200(q: QuoteSnapshot)
    ensures
        quote_succeeded(q) <==> (q.r_code is Some && q.r_code->0 == 200),
{
}

/// The current price is the last sale price after its leading `'$'` signs,
/// kept whole; without a last sale price it is empty.
pub proof fn lemma_current_price(q: QuoteSnapshot, dollars: Seq<char>, price: Seq<char>)
    requires
        forall|i: int| 0 <= i < dollars.len() ==> #[trigger] dollars[i] == '$',
        price.len() > 0 ==> price[0] != '$',
    ensures
        q.last_sale_price matches Some(t) && t@ == dollars + price ==> current_price_text(q)
            == price,
        q.last_sale_price is None ==> current_price_text(q) == Seq::<char>::empty(),
{
    lemma_dollars_removed(dollars, price);
    lemma_dollars_removed(Seq::<char>::empty(), Seq::<char>::empty());
    assert(Seq::<char>::empty() + Seq::<char>::empty() =~= Seq::<char>::empty());
}

/// The day range `low-high` gives the whole trimmed `low` as the lowest and
/// the whole trimmed `high` as the highest price, whatever their lengths; a
/// range without `'-'` gives only a lowest price (the whole range, trimmed),
/// and no range gives neither.
pub proof fn lemma_day_range(q: QuoteSnapshot, low: Seq<char>, high: Seq<char>)
    requires
        free_of(low, '-'),
        free_of(high, '-'),
    ensures
        q.day_range matches Some(r) && r@ == low + seq!['-'] + high ==> {
            &&& lowest_price_text(q) == Some(trim_ws(low))
            &&& highest_price_text(q) == Some(trim_ws(high))
        },
        q.day_range matches Some(r) && r@ == low ==> {
            &&& lowest_price_text(q) == Some(trim_ws(low))
            &&& highest_price_text(q) is None
        },
        q.day_range is None ==> lowest_price_text(q) is None && highest_price_text(q) is None,
{
    lemma_split_pieces(low, '-', high);
}

/// Whether `t` reads as `hour:minute` followed by nothing or by white space,
/// with an hour that is not empty, and neither part holding `':'` or white
/// space.
pub open spec fn clock_time(t: Seq<char>, hour: Seq<char>, minute: Seq<char>, tail: Seq<char>) -> bool {
    &&& t == hour + seq![':'] + minute + tail
    &&& hour.len() > 0
    &&& forall|i: int| 0 <= i < hour.len() ==> #[trigger] hour[i] != ':' && !unicode_white_space(hour[i])
    &&& forall|i: int| 0 <= i < minute.len() ==> #[trigger] minute[i] != ':' && !unicode_white_space(minute[i])
    &&& tail.len() > 0 ==> unicode_white_space(tail[0])
}

/// A chart point at `hour:minute` is kept in the price history exactly when
/// its minute is `00`; so a point at `10:05 AM` is never kept, one at
/// `10:00 AM` always.
pub proof fn lemma_kept_iff_minute_zero(
    chart: Seq<ChartPoint>,
    i: int,
    hour: Seq<char>,
    minute: Seq<char>,
    tail: Seq<char>,
)
    requires
        0 <= i < chart.len(),
        clock_time(chart[i].z.dateTime@, hour, minute, tail),
    ensures
        on_the_hour(chart[i].z.dateTime@) <==> minute == seq!['0', '0'],
        chart_points(chart).filter(hourly_point()).contains(chart[i].z) <==> minute == seq!['0', '0'],
{
    let t = chart[i].z.dateTime@;
    let word = hour + seq![':'] + minute;
    assert(t =~= Seq::<char>::empty() + word + tail);
    assert forall|k: int| 0 <= k < word.len() implies !unicode_white_space(#[trigger] word[k]) by {
        if k < hour.len() {
            assert(word[k] == hour[k]);
        } else if k > hour.len() {
            assert(word[k] == minute[k - hour.len() - 1]);
        }
    }
    crate::text::lemma_first_word(Seq::<char>::empty(), word, tail);
    assert(free_of(hour, ':'));
    lemma_split_pieces(hour, ':', minute);
    assert(free_of(minute, ':'));
    assert(minute_field(t) == Some(Some(minute)));
    let points = chart_points(chart);
    let hourly = points.filter(hourly_point());
    assert(points[i] == chart[i].z);
    if minute == seq!['0', '0'] {
        points.lemma_filter_contains(hourly_point(), i);
    }
    if hourly.contains(chart[i].z) {
        let j = choose|j: int| 0 <= j < hourly.len() && hourly[j] == chart[i].z;
        points.lemma_filter_pred(hourly_point(), j);
    }
}

} // verus!
