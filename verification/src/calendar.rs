//! Economic calendar: normalization of ForexFactory rows and the markdown
//! table that the browser fallback returns.
use vstd::prelude::*;
use crate::text::{
    Pat, chars_of, concat_chars, eq_ignore_ascii_case, eq_ignore_case, is_whitespace, is_ws, lower, lowercase,
    same_chars, split_char, split_chars, string_of, trim, trim_by, trim_chars, trim_chars_by, upper, uppercase, views,
};

verus! {

/// ForexFactory's official weekly export (same data as the calendar page).
pub const FF_WEEKLY_JSON: &'static str = "https://nfs.faireconomy.media/ff_calendar_thisweek.json";

/// Mirror used when the primary host is rate-limiting.
pub const FF_WEEKLY_JSON_CDN: &'static str = "https://cdn-nfs.faireconomy.media/ff_calendar_thisweek.json";

/// One normalized calendar event, broadcast as part of the `calendar` frame.
#[derive(Debug, Clone, PartialEq)]
pub struct CalendarEvent {
    /// Event title, e.g. "Core CPI m/m".
    pub event: String,
    /// ISO currency code, e.g. "USD".
    pub currency: String,
    /// "High" | "Medium" | "Low" | "Holiday" (or the raw label).
    pub impact: String,
    /// Event time in UTC, RFC3339. None for all-day / tentative events.
    pub time: Option<String>,
    /// Epoch millis for the event, when it has a concrete time.
    pub timestamp: Option<i64>,
    pub actual: Option<String>,
    pub forecast: Option<String>,
    pub previous: Option<String>,
    /// True when this event can move gold: USD (or the metal itself) + high impact.
    pub gold_relevant: bool,
}

/// The mathematical content of a `CalendarEvent`.
pub struct EventView {
    pub event: Seq<char>,
    pub currency: Seq<char>,
    pub impact: Seq<char>,
    pub time: Option<Seq<char>>,
    pub timestamp: Option<i64>,
    pub actual: Option<Seq<char>>,
    pub forecast: Option<Seq<char>>,
    pub previous: Option<Seq<char>>,
    pub gold_relevant: bool,
}

pub open spec fn opt_view(o: Option<String>) -> Option<Seq<char>> {
    match o {
        Some(s) => Some(s@),
        None => None,
    }
}

impl View for CalendarEvent {
    type V = EventView;

    open spec fn view(&self) -> EventView {
        EventView {
            event: self.event@,
            currency: self.currency@,
            impact: self.impact@,
            time: opt_view(self.time),
            timestamp: self.timestamp,
            actual: opt_view(self.actual),
            forecast: opt_view(self.forecast),
            previous: opt_view(self.previous),
            gold_relevant: self.gold_relevant,
        }
    }
}

pub open spec fn event_views(v: Seq<CalendarEvent>) -> Seq<EventView> {
    v.map_values(|e: CalendarEvent| e@)
}

fn lit(s: &str) -> (r: String)
    ensures
        r@ == s@,
{
    s.to_owned()
}

/// The impact label for a raw impact cell or colour name.
pub open spec fn spec_normalize_impact(raw: Seq<char>) -> Seq<char> {
    let k = lower(trim(raw));
    if k == "high"@ || k == "red"@ {
        "High"@
    } else if k == "medium"@ || k == "orange"@ {
        "Medium"@
    } else if k == "low"@ || k == "yellow"@ {
        "Low"@
    } else if k == "holiday"@ || k == "non-economic"@ || k == "grey"@ || k == "gray"@ {
        "Holiday"@
    } else {
        "Unknown"@
    }
}

fn is_one_of(k: &Vec<char>, a: &str, b: &str) -> (r: bool)
    ensures
        r == (k@ == a@ || k@ == b@),
{
    same_chars(k, &chars_of(a)) || same_chars(k, &chars_of(b))
}

/// Map an impact label (or the colour ForexFactory paints it in) to one of
/// "High" | "Medium" | "Low" | "Holiday"; a blank or unrecognised label is
/// "Unknown". Labels are matched trimmed, ignoring ASCII case.
pub fn normalize_impact(raw: &str) -> (r: String)
    ensures
        r@ == spec_normalize_impact(raw@),
{
    let t = trim_chars(&chars_of(raw));
    let k = lowercase(&t);
    if is_one_of(&k, "high", "red") {
        lit("High")
    } else if is_one_of(&k, "medium", "orange") {
        lit("Medium")
    } else if is_one_of(&k, "low", "yellow") {
        lit("Low")
    } else if is_one_of(&k, "holiday", "non-economic") || is_one_of(&k, "grey", "gray") {
        lit("Holiday")
    } else {
        lit("Unknown")
    }
}

/// Gold reacts hardest to high-impact USD prints.
pub open spec fn spec_is_gold_relevant(currency: Seq<char>, impact: Seq<char>) -> bool {
    let cur = upper(trim(currency));
    eq_ignore_case(impact, "High"@) && (cur == "USD"@ || cur == "XAU"@ || cur == "ALL"@)
}

/// True for high-impact events on USD, XAU or ALL.
pub fn is_gold_relevant(currency: &str, impact: &str) -> (r: bool)
    ensures
        r == spec_is_gold_relevant(currency@, impact@),
{
    let cur = uppercase(&trim_chars(&chars_of(currency)));
    let high = eq_ignore_ascii_case(&chars_of(impact), &chars_of("High"));
    high && (is_one_of(&cur, "USD", "XAU") || same_chars(&cur, &chars_of("ALL")))
}

pub open spec fn spec_blank_to_none(v: Option<Seq<char>>) -> Option<Seq<char>> {
    match v {
        Some(s) => if trim(s).len() == 0 { None } else { Some(s) },
        None => None,
    }
}

/// Drop values that are empty or whitespace only.
pub fn blank_to_none(v: Option<String>) -> (r: Option<String>)
    ensures
        opt_view(r) == spec_blank_to_none(opt_view(v)),
{
    match v {
        Some(s) => {
            let t = trim_chars(&chars_of(s.as_str()));
            if t.len() == 0 {
                None
            } else {
                Some(s)
            }
        },
        None => None,
    }
}

// ---------------------------------------------------------------------
// Markdown table (browser fallback)
// ---------------------------------------------------------------------

pub open spec fn is_sep_char(c: char) -> bool {
    c == '-' || c == ':' || is_ws(c)
}

/// Header row, markdown separator row, or a row without an event name. A
/// blank time cell is no separator: it is an all-day or same-time event.
pub open spec fn md_skip(cols: Seq<Seq<char>>) -> bool {
    ||| eq_ignore_case(cols[0], "time"@)
    ||| (cols[0].len() > 0 && cols[0][0] == ':')
    ||| (cols[0].len() > 0 && forall|i: int| 0 <= i < cols[0].len() ==> is_sep_char(#[trigger] cols[0][i]))
    ||| cols[3].len() == 0
}

pub open spec fn md_cols(t: Seq<char>) -> Seq<Seq<char>> {
    split_char(trim_by(t, Pat::Char('|')), '|').map_values(|c: Seq<char>| trim(c))
}

/// The event one line of a markdown table describes, if any.
pub open spec fn md_row(line: Seq<char>) -> Option<EventView> {
    let t = trim(line);
    if !(t.len() > 0 && t[0] == '|') {
        None
    } else {
        let cols = md_cols(t);
        if cols.len() < 4 || md_skip(cols) {
            None
        } else {
            let impact = spec_normalize_impact(cols[2]);
            let currency = upper(cols[1]);
            Some(
                EventView {
                    event: cols[3],
                    currency,
                    impact,
                    time: if cols[0].len() == 0 { None } else { Some(cols[0]) },
                    timestamp: None,
                    actual: None,
                    forecast: None,
                    previous: None,
                    gold_relevant: spec_is_gold_relevant(currency, impact),
                },
            )
        }
    }
}

pub open spec fn md_rows(lines: Seq<Seq<char>>) -> Seq<EventView>
    decreases lines.len(),
{
    if lines.len() == 0 {
        Seq::empty()
    } else {
        let prev = md_rows(lines.drop_last());
        match md_row(lines.last()) {
            Some(e) => prev.push(e),
            None => prev,
        }
    }
}

/// The events of a markdown table, one per qualifying line, in order.
/// Lines are the pieces between `'\n'`; since every line is trimmed before
/// it is looked at, a `'\r'` before the newline and a final empty piece
/// make no difference, so this is what `str::lines` gives.
pub open spec fn spec_parse_calendar_markdown(md: Seq<char>) -> Seq<EventView> {
    md_rows(split_char(md, '\n'))
}

fn trim_all(v: &Vec<Vec<char>>) -> (r: Vec<Vec<char>>)
    ensures
        views(r@) == views(v@).map_values(|c: Seq<char>| trim(c)),
{
    let mut r: Vec<Vec<char>> = Vec::new();
    for i in 0..v.len()
        invariant
            views(r@) == views(v@).take(i as int).map_values(|c: Seq<char>| trim(c)),
    {
        let ghost old_r = views(r@);
        r.push(trim_chars(&v[i]));
        assert(views(r@) =~= old_r.push(trim(v@[i as int]@)));
        assert(views(v@)[i as int] == v@[i as int]@);
        assert(views(v@).take(i + 1).map_values(|c: Seq<char>| trim(c)) =~= views(v@).take(
            i as int,
        ).map_values(|c: Seq<char>| trim(c)).push(trim(views(v@)[i as int])));
    }
    assert(views(v@).take(v.len() as int) =~= views(v@));
    r
}

fn all_sep_chars(s: &Vec<char>) -> (r: bool)
    ensures
        r == (forall|i: int| 0 <= i < s@.len() ==> is_sep_char(#[trigger] s@[i])),
{
    for i in 0..s.len()
        invariant
            forall|k: int| 0 <= k < i ==> is_sep_char(#[trigger] s@[k]),
    {
        let c = s[i];
        if !(c == '-' || c == ':' || is_whitespace(c)) {
            return false;
        }
    }
    true
}

fn opt_string_of(v: &Vec<char>) -> (r: Option<String>)
    ensures
        opt_view(r) == (if v@.len() == 0 { None } else { Some(v@) }),
{
    if v.len() == 0 {
        None
    } else {
        Some(string_of(v))
    }
}

fn parse_md_line(line: &Vec<char>) -> (r: Option<CalendarEvent>)
    ensures
        match r {
            Some(e) => md_row(line@) == Some(e@),
            None => md_row(line@) is None,
        },
{
    let t = trim_chars(line);
    if !(t.len() > 0 && t[0] == '|') {
        return None;
    }
    let inner = trim_chars_by(&t, Pat::Char('|'));
    let raw = split_chars(&inner, '|');
    let cols = trim_all(&raw);
    proof {
        assert(views(cols@) == md_cols(t@));
    }
    if cols.len() < 4 {
        return None;
    }
    assert(views(cols@)[0] == cols@[0]@);
    assert(views(cols@)[1] == cols@[1]@);
    assert(views(cols@)[2] == cols@[2]@);
    assert(views(cols@)[3] == cols@[3]@);
    let c0 = &cols[0];
    if eq_ignore_ascii_case(c0, &chars_of("time")) || (c0.len() > 0 && c0[0] == ':')
        || (c0.len() > 0 && all_sep_chars(c0)) || cols[3].len() == 0 {
        return None;
    }
    let impact = normalize_impact(string_of(&cols[2]).as_str());
    let currency = string_of(&uppercase(&cols[1]));
    let gold_relevant = is_gold_relevant(currency.as_str(), impact.as_str());
    Some(
        CalendarEvent {
            gold_relevant,
            event: string_of(&cols[3]),
            currency,
            impact,
            time: opt_string_of(c0),
            timestamp: None,
            actual: None,
            forecast: None,
            previous: None,
        },
    )
}

/// Parse a markdown/text table (the browser fallback path).
/// Accepts `| time | currency | impact | event |` rows and skips headers,
/// separators and rows without an event name.
pub fn parse_calendar_markdown(md: &str) -> (out: Vec<CalendarEvent>)
    ensures
        event_views(out@) == spec_parse_calendar_markdown(md@),
{
    let lines = split_chars(&chars_of(md), '\n');
    let mut out: Vec<CalendarEvent> = Vec::new();
    for i in 0..lines.len()
        invariant
            event_views(out@) == md_rows(views(lines@).take(i as int)),
    {
        let ghost pre = views(lines@).take(i as int);
        proof {
            assert(views(lines@).take(i + 1).drop_last() =~= pre);
            assert(views(lines@).take(i + 1).last() == lines@[i as int]@);
        }
        match parse_md_line(&lines[i]) {
            Some(e) => {
                out.push(e);
                assert(event_views(out@) =~= md_rows(views(lines@).take(i + 1)));
            },
            None => {},
        }
    }
    assert(views(lines@).take(lines.len() as int) =~= views(lines@));
    out
}


// ---------------------------------------------------------------------
// ForexFactory weekly JSON export
// ---------------------------------------------------------------------

/// One row of the ForexFactory weekly export, as decoded from its JSON
/// (absent fields are empty / None).
#[derive(Debug, Clone)]
pub struct FfRow {
    pub title: String,
    pub country: String,
    pub date: String,
    pub impact: String,
    pub actual: Option<String>,
    pub forecast: Option<String>,
    pub previous: Option<String>,
}

/// Why a calendar feed body was rejected.
#[derive(Debug, Clone)]
pub enum CalendarError {
    /// The body is an HTML page (rate limited / blocked), not JSON.
    Html,
    /// The body is not the expected JSON array; the decoder's message.
    Decode(String),
}

impl CalendarError {
    /// The error's text, as the engine logs it.
    pub fn message(&self) -> (m: String)
        ensures
            self is Html ==> m@ == "calendar feed returned HTML (rate limited / blocked), not JSON"@,
            self is Decode ==> m@ == "decoding ForexFactory weekly JSON"@,
    {
        match self {
            CalendarError::Html => lit("calendar feed returned HTML (rate limited / blocked), not JSON"),
            CalendarError::Decode(_) => lit("decoding ForexFactory weekly JSON"),
        }
    }
}

/// The instant an RFC 3339 text names, as chrono reads it: the UTC
/// rendering that `to_rfc3339` writes for it and its epoch milliseconds;
/// None where `DateTime::parse_from_rfc3339` rejects the text.
pub uninterp spec fn rfc3339_utc(s: Seq<char>) -> Option<(Seq<char>, i64)>;

/// Calls `chrono::DateTime::parse_from_rfc3339`, and on success takes the
/// instant to UTC and returns `(to_rfc3339(), timestamp_millis())`. The
/// contract only names the result: RFC 3339 parsing is chrono's.
#[verifier::external_body]
fn parse_rfc3339_utc(s: &str) -> (r: Option<(String, i64)>)
    ensures
        match r {
            Some(p) => rfc3339_utc(s@) == Some((p.0@, p.1)),
            None => rfc3339_utc(s@) is None,
        },
{
    match chrono::DateTime::parse_from_rfc3339(s) {
        Ok(d) => {
            let u = d.with_timezone(&chrono::Utc);
            Some((u.to_rfc3339(), u.timestamp_millis()))
        },
        Err(_) => None,
    }
}

/// The event a feed row becomes, given what the RFC 3339 reading of its
/// trimmed date gave (`(UTC text, epoch ms)`, or None); rows without a
/// title are dropped.
pub open spec fn row_event_with(r: FfRow, parsed: Option<(Seq<char>, i64)>) -> Option<EventView> {
    if trim(r.title@).len() == 0 {
        None
    } else {
        let impact = spec_normalize_impact(r.impact@);
        let currency = upper(trim(r.country@));
        Some(
            EventView {
                event: trim(r.title@),
                currency,
                impact,
                time: match parsed {
                    Some(p) => Some(p.0),
                    None => None,
                },
                timestamp: match parsed {
                    Some(p) => Some(p.1),
                    None => None,
                },
                actual: spec_blank_to_none(opt_view(r.actual)),
                forecast: spec_blank_to_none(opt_view(r.forecast)),
                previous: spec_blank_to_none(opt_view(r.previous)),
                gold_relevant: spec_is_gold_relevant(currency, impact),
            },
        )
    }
}

/// The event a feed row becomes; rows without a title are dropped.
pub open spec fn ff_row_event(r: FfRow) -> Option<EventView> {
    row_event_with(r, rfc3339_utc(trim(r.date@)))
}

pub open spec fn ff_events(rows: Seq<FfRow>) -> Seq<EventView>
    decreases rows.len(),
{
    if rows.len() == 0 {
        Seq::empty()
    } else {
        let prev = ff_events(rows.drop_last());
        match ff_row_event(rows.last()) {
            Some(e) => prev.push(e),
            None => prev,
        }
    }
}

/// The key events are ordered by: their time, untimed events last.
pub open spec fn time_key(e: EventView) -> int {
    match e.timestamp {
        Some(t) => t as int,
        None => i64::MAX as int,
    }
}

/// `x` inserted after every element whose key is not greater.
pub open spec fn insert_by_time(sorted: Seq<EventView>, x: EventView) -> Seq<EventView>
    decreases sorted.len(),
{
    if sorted.len() == 0 {
        seq![x]
    } else if time_key(sorted.last()) <= time_key(x) {
        sorted.push(x)
    } else {
        insert_by_time(sorted.drop_last(), x).push(sorted.last())
    }
}

/// The stable sort of `s` by `time_key` (`sort_by_key` is stable, and a
/// stable sort has exactly one result; this is it, by insertion).
pub open spec fn sort_by_time(s: Seq<EventView>) -> Seq<EventView>
    decreases s.len(),
{
    if s.len() == 0 {
        s
    } else {
        insert_by_time(sort_by_time(s.drop_last()), s.last())
    }
}

/// The events of a decoded feed: one per titled row, chronologically.
pub open spec fn spec_parse_ff_rows(rows: Seq<FfRow>) -> Seq<EventView> {
    sort_by_time(ff_events(rows))
}

/// A body whose first non-whitespace character is `<` is an HTML page.
pub open spec fn is_html_body(body: Seq<char>) -> bool {
    trim(body).len() > 0 && trim(body)[0] == '<'
}

proof fn lemma_insert_at(s: Seq<EventView>, x: EventView, j: int)
    requires
        0 <= j <= s.len(),
        forall|k: int| j <= k < s.len() ==> time_key(#[trigger] s[k]) > time_key(x),
        j == 0 || time_key(s[j - 1]) <= time_key(x),
    ensures
        insert_by_time(s, x) == s.insert(j, x),
    decreases s.len() - j,
{
    if j == s.len() {
        assert(s.insert(j, x) =~= s.push(x));
    } else {
        lemma_insert_at(s.drop_last(), x, j);
        assert(s.insert(j, x) =~= s.drop_last().insert(j, x).push(s.last()));
    }
}

fn event_key(e: &CalendarEvent) -> (k: i64)
    ensures
        k == time_key(e@),
{
    match e.timestamp {
        Some(t) => t,
        None => i64::MAX,
    }
}

fn insert_event(out: &mut Vec<CalendarEvent>, x: CalendarEvent)
    ensures
        event_views(final(out)@) == insert_by_time(event_views(old(out)@), x@),
{
    let kx = event_key(&x);
    let mut j = out.len();
    while j > 0 && event_key(&out[j - 1]) > kx
        invariant
            j <= out.len(),
            kx == time_key(x@),
            forall|k: int| j <= k < out.len() ==> time_key(#[trigger] out@[k]@) > time_key(x@),
        decreases j,
    {
        j -= 1;
    }
    proof {
        let s = event_views(out@);
        assert forall|k: int| j <= k < s.len() implies time_key(#[trigger] s[k]) > time_key(x@) by {
            assert(s[k] == out@[k]@);
        }
        if j > 0 {
            assert(s[j - 1] == out@[j - 1]@);
        }
        lemma_insert_at(s, x@, j as int);
    }
    let ghost pre = out@;
    out.insert(j, x);
    assert(event_views(out@) =~= event_views(pre).insert(j as int, x@));
}

/// `events` sorted chronologically, untimed events last, keeping the feed's
/// order among equal times.
pub fn sort_events_by_time(events: Vec<CalendarEvent>) -> (out: Vec<CalendarEvent>)
    ensures
        event_views(out@) == sort_by_time(event_views(events@)),
{
    let ghost orig = event_views(events@);
    let mut rest = events;
    let mut out: Vec<CalendarEvent> = Vec::new();
    let ghost mut i: int = 0;
    while rest.len() > 0
        invariant
            orig.len() == i + rest.len(),
            0 <= i,
            event_views(rest@) == orig.skip(i),
            event_views(out@) == sort_by_time(orig.take(i)),
        decreases rest.len(),
    {
        let ghost pre_rest = rest@;
        let x = rest.remove(0);
        proof {
            assert(x@ == event_views(pre_rest)[0]);
            assert(orig.take(i + 1).drop_last() =~= orig.take(i));
            assert(orig.take(i + 1).last() == orig[i]);
            assert forall|k: int| 0 <= k < rest@.len() implies #[trigger] event_views(rest@)[k]
                == orig.skip(i + 1)[k] by {
                assert(rest@[k] == pre_rest[k + 1]);
                assert(event_views(pre_rest)[k + 1] == orig.skip(i)[k + 1]);
            }
            assert(event_views(rest@) =~= orig.skip(i + 1));
        }
        insert_event(&mut out, x);
        proof {
            i = i + 1;
        }
    }
    assert(orig.take(i) =~= orig);
    out
}

pub open spec fn parsed_view(p: Option<(String, i64)>) -> Option<(Seq<char>, i64)> {
    match p {
        Some(x) => Some((x.0@, x.1)),
        None => None,
    }
}

/// The event a feed row becomes, given what reading its trimmed date as
/// RFC 3339 gave: the instant's UTC text and epoch milliseconds, or None.
pub fn event_of_row(r: &FfRow, parsed: Option<(String, i64)>) -> (e: Option<CalendarEvent>)
    ensures
        match e {
            Some(ev) => row_event_with(*r, parsed_view(parsed)) == Some(ev@),
            None => row_event_with(*r, parsed_view(parsed)) is None,
        },
{
    let title = trim_chars(&chars_of(r.title.as_str()));
    if title.len() == 0 {
        return None;
    }
    let impact = normalize_impact(r.impact.as_str());
    let currency = string_of(&uppercase(&trim_chars(&chars_of(r.country.as_str()))));
    let gold_relevant = is_gold_relevant(currency.as_str(), impact.as_str());
    let (time, timestamp) = match parsed {
        Some(p) => (Some(p.0), Some(p.1)),
        None => (None, None),
    };
    Some(
        CalendarEvent {
            gold_relevant,
            event: string_of(&title),
            currency,
            impact,
            time,
            timestamp,
            actual: blank_to_none(r.actual.clone()),
            forecast: blank_to_none(r.forecast.clone()),
            previous: blank_to_none(r.previous.clone()),
        },
    )
}

fn ff_row_to_event(r: &FfRow) -> (e: Option<CalendarEvent>)
    ensures
        match e {
            Some(ev) => ff_row_event(*r) == Some(ev@),
            None => ff_row_event(*r) is None,
        },
{
    let date = string_of(&trim_chars(&chars_of(r.date.as_str())));
    event_of_row(r, parse_rfc3339_utc(date.as_str()))
}

/// The normalized events of a decoded ForexFactory feed: rows without a
/// title are dropped, the rest sorted chronologically.
pub fn parse_ff_rows(rows: &Vec<FfRow>) -> (out: Vec<CalendarEvent>)
    ensures
        event_views(out@) == spec_parse_ff_rows(rows@),
{
    let mut evs: Vec<CalendarEvent> = Vec::new();
    for i in 0..rows.len()
        invariant
            event_views(evs@) == ff_events(rows@.take(i as int)),
    {
        proof {
            assert(rows@.take(i + 1).drop_last() =~= rows@.take(i as int));
            assert(rows@.take(i + 1).last() == rows@[i as int]);
        }
        match ff_row_to_event(&rows[i]) {
            Some(e) => {
                evs.push(e);
                assert(event_views(evs@) =~= ff_events(rows@.take(i + 1)));
            },
            None => {},
        }
    }
    assert(rows@.take(rows.len() as int) =~= rows@);
    sort_events_by_time(evs)
}

/// Parse the ForexFactory weekly JSON export into normalized events.
/// `decoded` is what the JSON decoder made of `body` (its rows, or its
/// message); it is consulted only when `body` is not an HTML page.
pub fn parse_ff_json(body: &str, decoded: Result<Vec<FfRow>, String>) -> (r: Result<
    Vec<CalendarEvent>,
    CalendarError,
>)
    ensures
        is_html_body(body@) ==> r matches Err(CalendarError::Html),
        !is_html_body(body@) ==> match decoded {
            Ok(rows) => r matches Ok(evs) && event_views(evs@) == spec_parse_ff_rows(rows@),
            Err(m) => r matches Err(CalendarError::Decode(m2)) && m2 == m,
        },
{
    let t = trim_chars(&chars_of(body));
    if t.len() > 0 && t[0] == '<' {
        return Err(CalendarError::Html);
    }
    match decoded {
        Ok(rows) => Ok(parse_ff_rows(&rows)),
        Err(m) => Err(CalendarError::Decode(m)),
    }
}


// ---------------------------------------------------------------------
// Feed sources
// ---------------------------------------------------------------------

/// `list` with `u` appended unless it already holds it.
pub open spec fn push_absent(list: Seq<Seq<char>>, u: Seq<char>) -> Seq<Seq<char>> {
    if list.contains(u) {
        list
    } else {
        list.push(u)
    }
}

/// The feed URLs tried in order: the configured one (trimmed) when it is
/// not blank, then the official export and its mirror, each once.
pub open spec fn spec_source_urls(primary: Option<Seq<char>>) -> Seq<Seq<char>> {
    let first: Seq<Seq<char>> = match primary {
        Some(u) => if trim(u).len() > 0 {
            seq![trim(u)]
        } else {
            Seq::empty()
        },
        None => Seq::empty(),
    };
    push_absent(push_absent(first, FF_WEEKLY_JSON@), FF_WEEKLY_JSON_CDN@)
}

/// The calendar feed URLs, in the order they are tried.
pub struct CalendarSource {
    pub urls: Vec<String>,
}

fn push_if_absent(urls: &mut Vec<String>, u: &str)
    ensures
        views_of(final(urls)@) == push_absent(views_of(old(urls)@), u@),
{
    let c = chars_of(u);
    let ghost vs = views_of(urls@);
    for i in 0..urls.len()
        invariant
            vs == views_of(urls@),
            c@ == u@,
            forall|k: int| 0 <= k < i ==> vs[k] != u@,
    {
        if same_chars(&chars_of(urls[i].as_str()), &c) {
            assert(vs[i as int] == u@);
            return;
        }
    }
    assert(!vs.contains(u@));
    urls.push(lit(u));
    assert(views_of(urls@) =~= vs.push(u@));
}

pub open spec fn views_of(v: Seq<String>) -> Seq<Seq<char>> {
    v.map_values(|s: String| s@)
}

impl CalendarSource {
    /// The configured feed first (when given and not blank), then the two
    /// ForexFactory exports that are not already listed.
    pub fn new(primary: Option<String>) -> (s: Self)
        ensures
            views_of(s.urls@) == spec_source_urls(opt_view(primary)),
    {
        let mut urls: Vec<String> = Vec::new();
        match primary {
            Some(u) => {
                let t = trim_chars(&chars_of(u.as_str()));
                if t.len() > 0 {
                    urls.push(string_of(&t));
                }
            },
            None => {},
        }
        assert(views_of(urls@) =~= match opt_view(primary) {
            Some(u) => if trim(u).len() > 0 {
                seq![trim(u)]
            } else {
                Seq::empty()
            },
            None => Seq::empty(),
        });
        push_if_absent(&mut urls, FF_WEEKLY_JSON);
        push_if_absent(&mut urls, FF_WEEKLY_JSON_CDN);
        CalendarSource { urls }
    }
}

/// What one feed URL's answer means for the fetch loop.
pub enum FeedAttempt {
    /// A usable calendar: stop here.
    Done(Vec<CalendarEvent>),
    /// Try the next URL; the reason this one was passed over.
    TryNext(String),
}

/// Judge one feed's answer: events end the search; an empty calendar or a
/// failure moves on, with `"<url> returned 0 events"` or the failure's text.
pub fn judge_feed(url: &str, answer: Result<Vec<CalendarEvent>, String>) -> (r: FeedAttempt)
    ensures
        match answer {
            Ok(evs) => if evs@.len() > 0 {
                r matches FeedAttempt::Done(out) && out@ == evs@
            } else {
                r matches FeedAttempt::TryNext(m) && m@ == url@ + " returned 0 events"@
            },
            Err(e) => r matches FeedAttempt::TryNext(m) && m == e,
        },
{
    match answer {
        Ok(evs) => {
            if evs.len() > 0 {
                FeedAttempt::Done(evs)
            } else {
                let m = concat_chars(&chars_of(url), &chars_of(" returned 0 events"));
                FeedAttempt::TryNext(string_of(&m))
            }
        },
        Err(e) => FeedAttempt::TryNext(e),
    }
}

/// The error the fetch loop reports when no URL gave events: the last
/// reason, or that no URL was configured.
pub fn feeds_exhausted(last: Option<String>) -> (m: String)
    ensures
        match last {
            Some(e) => m == e,
            None => m@ == "no calendar feed URLs configured"@,
        },
{
    match last {
        Some(e) => e,
        None => lit("no calendar feed URLs configured"),
    }
}

/// What the calendar fetch does next, after one of its sources answered.
#[derive(Debug)]
pub enum CalendarStep {
    /// Serve these events; `source` names where they came from and
    /// `status` is the calendar feed's new liveness label.
    Serve { events: Vec<CalendarEvent>, source: String, status: String },
    /// Ask the browser MCP server for the calendar page.
    AskBrowser,
    /// Every source failed; the calendar feed's new liveness label.
    Fail { status: String },
}

/// After the direct feeds: their events are served as `"ff_json"` with the
/// label `"connected"`; when they failed, the browser is asked if one is
/// configured, else the fetch fails with the label `"error"`.
pub fn after_direct_feeds(direct: Result<Vec<CalendarEvent>, String>, browser_available: bool) -> (r: CalendarStep)
    ensures
        match direct {
            Ok(evs) => r matches CalendarStep::Serve { events, source, status }
                && events@ == evs@ && source@ == "ff_json"@ && status@ == "connected"@,
            Err(_) => if browser_available {
                r is AskBrowser
            } else {
                r matches CalendarStep::Fail { status } && status@ == "error"@
            },
        },
{
    match direct {
        Ok(events) => CalendarStep::Serve { events, source: lit("ff_json"), status: lit("connected") },
        Err(_) => if browser_available {
            CalendarStep::AskBrowser
        } else {
            CalendarStep::Fail { status: lit("error") }
        },
    }
}

/// After the browser: a page whose markdown table holds events is served
/// as `"mcp_browser"` with the label `"connected (mcp)"`; an empty table or
/// a failed scrape fails the fetch with the label `"error"`.
pub fn after_browser(page: Result<String, String>) -> (r: CalendarStep)
    ensures
        match page {
            Ok(md) => if spec_parse_calendar_markdown(md@).len() > 0 {
                r matches CalendarStep::Serve { events, source, status }
                    && event_views(events@) == spec_parse_calendar_markdown(md@)
                    && source@ == "mcp_browser"@ && status@ == "connected (mcp)"@
            } else {
                r matches CalendarStep::Fail { status } && status@ == "error"@
            },
            Err(_) => r matches CalendarStep::Fail { status } && status@ == "error"@,
        },
{
    match page {
        Ok(md) => {
            let events = parse_calendar_markdown(md.as_str());
            if events.len() > 0 {
                CalendarStep::Serve { events, source: lit("mcp_browser"), status: lit("connected (mcp)") }
            } else {
                CalendarStep::Fail { status: lit("error") }
            }
        },
        Err(_) => CalendarStep::Fail { status: lit("error") },
    }
}

// ---------------------------------------------------------------------
// Laws
// ---------------------------------------------------------------------

/// Keys never decrease along `s`.
pub open spec fn time_sorted(s: Seq<EventView>) -> bool {
    forall|i: int, j: int| 0 <= i < j < s.len() ==> time_key(s[i]) <= time_key(s[j])
}

proof fn lemma_insert_bound(s: Seq<EventView>, x: EventView, b: int)
    requires
        forall|k: int| 0 <= k < s.len() ==> time_key(#[trigger] s[k]) <= b,
        time_key(x) <= b,
    ensures
        forall|k: int|
            0 <= k < insert_by_time(s, x).len() ==> time_key(#[trigger] insert_by_time(s, x)[k])
                <= b,
    decreases s.len(),
{
    let r = insert_by_time(s, x);
    if s.len() == 0 {
        assert(r[0] == x);
    } else if time_key(s.last()) <= time_key(x) {
        assert forall|k: int| 0 <= k < r.len() implies time_key(#[trigger] r[k]) <= b by {
            if k < s.len() {
                assert(r[k] == s[k]);
            }
        }
    } else {
        let d = s.drop_last();
        assert forall|k: int| 0 <= k < d.len() implies time_key(#[trigger] d[k]) <= b by {
            assert(d[k] == s[k]);
        }
        lemma_insert_bound(d, x, b);
        let t = insert_by_time(d, x);
        assert forall|k: int| 0 <= k < r.len() implies time_key(#[trigger] r[k]) <= b by {
            if k < t.len() {
                assert(r[k] == t[k]);
            } else {
                assert(r[k] == s.last());
            }
        }
    }
}

proof fn lemma_insert_by_time(s: Seq<EventView>, x: EventView)
    requires
        time_sorted(s),
    ensures
        time_sorted(insert_by_time(s, x)),
        insert_by_time(s, x).to_multiset() == s.to_multiset().insert(x),
    decreases s.len(),
{
    broadcast use vstd::seq_lib::group_to_multiset_ensures;

    if s.len() == 0 {
        assert(seq![x] =~= Seq::<EventView>::empty().push(x));
    } else if time_key(s.last()) <= time_key(x) {
    } else {
        let d = s.drop_last();
        lemma_insert_by_time(d, x);
        lemma_insert_bound(d, x, time_key(s.last()));
        assert(s =~= d.push(s.last()));
    }
}

/// The calendar is chronological: sorting by time leaves the events in
/// non-decreasing time order (untimed events last), and it neither drops
/// nor duplicates an event.
pub proof fn lemma_sort_by_time(s: Seq<EventView>)
    ensures
        time_sorted(sort_by_time(s)),
        sort_by_time(s).to_multiset() == s.to_multiset(),
    decreases s.len(),
{
    broadcast use vstd::seq_lib::group_to_multiset_ensures;

    if s.len() > 0 {
        lemma_sort_by_time(s.drop_last());
        lemma_insert_by_time(sort_by_time(s.drop_last()), s.last());
        assert(s =~= s.drop_last().push(s.last()));
    }
}

/// Every event of a decoded feed is chronologically placed: the result of
/// `parse_ff_rows` is time-sorted and holds exactly the titled rows' events.
pub proof fn lemma_ff_feed_chronological(rows: Seq<FfRow>)
    ensures
        time_sorted(spec_parse_ff_rows(rows)),
        spec_parse_ff_rows(rows).to_multiset() == ff_events(rows).to_multiset(),
{
    lemma_sort_by_time(ff_events(rows));
}

/// `o` holds text that is not all whitespace.
pub open spec fn has_text(o: Option<String>) -> bool {
    o matches Some(v) && trim(v@).len() > 0
}

/// The printed values of a titled feed row each come from their own cell:
/// the event's actual, forecast and previous value are the row's actual,
/// forecast and previous text when that cell holds any, and absent when it
/// is missing or blank, whatever the other cells hold. So two rows that
/// agree on one of these cells give events that agree on that value. The
/// event is named by the trimmed title and timed by the reading of its
/// date.
pub proof fn lemma_print_values_come_from_their_own_cells(
    r1: FfRow,
    r2: FfRow,
    p1: Option<(Seq<char>, i64)>,
    p2: Option<(Seq<char>, i64)>,
)
    requires
        trim(r1.title@).len() > 0,
        trim(r2.title@).len() > 0,
    ensures
        row_event_with(r1, p1) matches Some(e) && {
            &&& e.event == trim(r1.title@)
            &&& (p1 matches Some(t) ==> e.time == Some(t.0) && e.timestamp == Some(t.1))
            &&& (p1 is None ==> e.time is None && e.timestamp is None)
            &&& (has_text(r1.previous) ==> e.previous == Some(r1.previous->0@))
            &&& (!has_text(r1.previous) ==> e.previous is None)
            &&& (has_text(r1.actual) ==> e.actual == Some(r1.actual->0@))
            &&& (!has_text(r1.actual) ==> e.actual is None)
            &&& (has_text(r1.forecast) ==> e.forecast == Some(r1.forecast->0@))
            &&& (!has_text(r1.forecast) ==> e.forecast is None)
        },
        opt_view(r1.previous) == opt_view(r2.previous) ==> row_event_with(r1, p1)->0.previous == row_event_with(
            r2,
            p2,
        )->0.previous,
        opt_view(r1.actual) == opt_view(r2.actual) ==> row_event_with(r1, p1)->0.actual == row_event_with(
            r2,
            p2,
        )->0.actual,
        opt_view(r1.forecast) == opt_view(r2.forecast) ==> row_event_with(r1, p1)->0.forecast == row_event_with(
            r2,
            p2,
        )->0.forecast,
{
}

} // verus!
