//! The latest price swing of the candle history: the leg between the last
//! two alternating confirmed pivots (a high then a low is bearish, a low
//! then a high bullish), or, when the history has no such pair, the leg
//! between its best high and best low.
//!
//! Prices enter as order keys: each non-NaN price is mapped to an `i64`
//! that orders exactly as the prices do (the IEEE-754 total-order key, with
//! both zeros on 0), and NaN to None. `INF_KEY` and `NEG_INF_KEY` are the
//! keys of the two infinities; every finite price lies strictly between.
use vstd::prelude::*;

verus! {

/// Bars on each side a pivot must beat.
pub const SWING_PIVOT_RADIUS: usize = 8;

/// Key of positive infinity.
pub const INF_KEY: i64 = 9218868437227405312;

/// Key of negative infinity.
pub const NEG_INF_KEY: i64 = -9218868437227405313;

/// The direction of a swing leg.
#[derive(Clone, Copy, Debug, PartialEq, Eq, Structural)]
pub enum SwingDirection {
    Bullish,
    Bearish,
}

impl SwingDirection {
    /// The profile label: "SWING_BULL" or "SWING_BEAR".
    pub fn label(self) -> (r: &'static str)
        ensures
            r@ == (if self == SwingDirection::Bullish {
                "SWING_BULL"@
            } else {
                "SWING_BEAR"@
            }),
    {
        match self {
            SwingDirection::Bullish => "SWING_BULL",
            SwingDirection::Bearish => "SWING_BEAR",
        }
    }

    /// The direction's name: "bullish" or "bearish".
    pub fn as_str(self) -> (r: &'static str)
        ensures
            r@ == (if self == SwingDirection::Bullish {
                "bullish"@
            } else {
                "bearish"@
            }),
    {
        match self {
            SwingDirection::Bullish => "bullish",
            SwingDirection::Bearish => "bearish",
        }
    }
}

/// A candle's high and low as order keys (None for NaN).
#[derive(Clone, Copy, Debug, PartialEq, Eq, Structural)]
pub struct Extremes {
    pub high: Option<i64>,
    pub low: Option<i64>,
}

#[derive(Clone, Copy, Debug, PartialEq, Eq, Structural)]
pub enum PivotKind {
    High,
    Low,
}

/// A confirmed pivot: a candle whose high (or low) beats its neighbours.
#[derive(Clone, Copy, Debug, PartialEq, Eq, Structural)]
pub struct Pivot {
    pub index: usize,
    pub kind: PivotKind,
}

/// A swing leg: candles `start_index..=end_index`, its direction, and the
/// candles holding its best high and best low (the first of equals).
#[derive(Clone, Copy, Debug, PartialEq, Eq, Structural)]
pub struct SwingLeg {
    pub start_index: usize,
    pub end_index: usize,
    pub direction: SwingDirection,
    pub high_at: usize,
    pub low_at: usize,
}

/// The price is finite.
pub open spec fn finite(k: Option<i64>) -> bool {
    k matches Some(x) && NEG_INF_KEY < x < INF_KEY
}

/// `a > b` for prices: false when either is NaN.
pub open spec fn gt(a: Option<i64>, b: Option<i64>) -> bool {
    a matches Some(x) && b matches Some(y) && x > y
}

/// `a >= b` for prices: false when either is NaN.
pub open spec fn ge(a: Option<i64>, b: Option<i64>) -> bool {
    a matches Some(x) && b matches Some(y) && x >= y
}

pub open spec fn radius() -> int {
    SWING_PIVOT_RADIUS as int
}

/// Candle `i` has a finite high above every other high within the radius.
pub open spec fn is_pivot_high(c: Seq<Extremes>, i: int) -> bool {
    &&& finite(c[i].high)
    &&& forall|j: int| i - radius() <= j <= i + radius() && j != i ==> gt(c[i].high, #[trigger] c[j].high)
}

/// Candle `i` has a finite low below every other low within the radius.
pub open spec fn is_pivot_low(c: Seq<Extremes>, i: int) -> bool {
    &&& finite(c[i].low)
    &&& forall|j: int| i - radius() <= j <= i + radius() && j != i ==> gt(#[trigger] c[j].low, c[i].low)
}

/// Candle `i` replaces the pivot of the same kind at `prev`: its high is
/// at least as high (or its low at least as low).
pub open spec fn replaces(c: Seq<Extremes>, kind: PivotKind, i: int, prev: int) -> bool {
    match kind {
        PivotKind::High => ge(c[i].high, c[prev].high),
        PivotKind::Low => ge(c[prev].low, c[i].low),
    }
}

/// Record a pivot: two pivots of one kind in a row collapse into the more
/// extreme one (the later one on a tie).
pub open spec fn push_pivot(p: Seq<Pivot>, kind: PivotKind, i: int, c: Seq<Extremes>) -> Seq<Pivot> {
    if p.len() > 0 && p.last().kind == kind {
        if replaces(c, kind, i, p.last().index as int) {
            p.update(p.len() - 1, Pivot { index: i as usize, kind })
        } else {
            p
        }
    } else {
        p.push(Pivot { index: i as usize, kind })
    }
}

/// The pivots found scanning candles `radius()..n`.
pub open spec fn pivots_through(c: Seq<Extremes>, n: int) -> Seq<Pivot>
    decreases n,
{
    if n <= radius() {
        Seq::empty()
    } else {
        let p = pivots_through(c, n - 1);
        let i = n - 1;
        if is_pivot_high(c, i) {
            push_pivot(p, PivotKind::High, i, c)
        } else if is_pivot_low(c, i) {
            push_pivot(p, PivotKind::Low, i, c)
        } else {
            p
        }
    }
}

/// The confirmed pivots of the history (none when it is too short to hold
/// one candle with a full radius on both sides).
pub open spec fn pivots(c: Seq<Extremes>) -> Seq<Pivot> {
    if c.len() >= 2 * radius() + 1 {
        pivots_through(c, c.len() - radius())
    } else {
        Seq::empty()
    }
}

/// The first candle in `[s, e)` with the highest high among those for
/// which `ok` holds of the high.
pub open spec fn arg_high(c: Seq<Extremes>, s: int, e: int, only_finite: bool) -> Option<int>
    decreases e - s,
{
    if e <= s {
        None
    } else {
        let prev = arg_high(c, s, e - 1, only_finite);
        let x = c[e - 1].high;
        if (if only_finite { finite(x) } else { x is Some }) {
            match prev {
                Some(p) => if gt(x, c[p].high) {
                    Some(e - 1)
                } else {
                    Some(p)
                },
                None => Some(e - 1),
            }
        } else {
            prev
        }
    }
}

/// The first candle in `[s, e)` with the lowest low among those for which
/// `ok` holds of the low.
pub open spec fn arg_low(c: Seq<Extremes>, s: int, e: int, only_finite: bool) -> Option<int>
    decreases e - s,
{
    if e <= s {
        None
    } else {
        let prev = arg_low(c, s, e - 1, only_finite);
        let x = c[e - 1].low;
        if (if only_finite { finite(x) } else { x is Some }) {
            match prev {
                Some(p) => if gt(c[p].low, x) {
                    Some(e - 1)
                } else {
                    Some(p)
                },
                None => Some(e - 1),
            }
        } else {
            prev
        }
    }
}

/// The leg of candles `s..=e` in direction `d`, when its best high is
/// above its best low; `only_finite` leaves infinite prices out.
pub open spec fn leg_of(c: Seq<Extremes>, s: int, e: int, d: SwingDirection, only_finite: bool) -> Option<SwingLeg> {
    match (arg_high(c, s, e + 1, only_finite), arg_low(c, s, e + 1, only_finite)) {
        (Some(h), Some(l)) => if gt(c[h].high, c[l].low) {
            Some(
                SwingLeg {
                    start_index: s as usize,
                    end_index: e as usize,
                    direction: d,
                    high_at: h as usize,
                    low_at: l as usize,
                },
            )
        } else {
            None
        },
        _ => None,
    }
}

/// The leg between two neighbouring pivots: bullish from a low to a high,
/// bearish from a high to a low.
pub open spec fn pair_leg(c: Seq<Extremes>, a: Pivot, b: Pivot) -> Option<SwingLeg> {
    if a.kind == PivotKind::Low && b.kind == PivotKind::High {
        leg_of(c, a.index as int, b.index as int, SwingDirection::Bullish, true)
    } else if a.kind == PivotKind::High && b.kind == PivotKind::Low {
        leg_of(c, a.index as int, b.index as int, SwingDirection::Bearish, true)
    } else {
        None
    }
}

/// The last leg among the pivot pairs `(p[j], p[j + 1])`, `j < k`.
pub open spec fn latest_pair_leg(c: Seq<Extremes>, p: Seq<Pivot>, k: int) -> Option<SwingLeg>
    decreases k,
{
    if k <= 0 {
        None
    } else {
        match pair_leg(c, p[k - 1], p[k]) {
            Some(l) => Some(l),
            None => latest_pair_leg(c, p, k - 1),
        }
    }
}

/// `max_by` on the highs of candles `0..n` under `partial_cmp`, NaN
/// comparing equal: the last of the greatest.
pub open spec fn max_by_high(c: Seq<Extremes>, n: int) -> int
    decreases n,
{
    if n <= 1 {
        0
    } else {
        let a = max_by_high(c, n - 1);
        if gt(c[a].high, c[n - 1].high) {
            a
        } else {
            n - 1
        }
    }
}

/// `min_by` on the lows of candles `0..n` under `partial_cmp`, NaN
/// comparing equal: the first of the least.
pub open spec fn min_by_low(c: Seq<Extremes>, n: int) -> int
    decreases n,
{
    if n <= 1 {
        0
    } else {
        let a = min_by_low(c, n - 1);
        if gt(c[a].low, c[n - 1].low) {
            n - 1
        } else {
            a
        }
    }
}

/// Without a pivot pair: the leg between the best high and the best low
/// of the whole history, bullish when the low comes first.
pub open spec fn fallback_leg(c: Seq<Extremes>) -> Option<SwingLeg> {
    if c.len() == 0 {
        None
    } else {
        let h = max_by_high(c, c.len() as int);
        let l = min_by_low(c, c.len() as int);
        if h == l {
            None
        } else if l < h {
            leg_of(c, l, h, SwingDirection::Bullish, false)
        } else {
            leg_of(c, h, l, SwingDirection::Bearish, false)
        }
    }
}

/// The latest swing leg of the history.
pub open spec fn spec_latest_swing(c: Seq<Extremes>) -> Option<SwingLeg> {
    let p = pivots(c);
    let from_pivots = if p.len() >= 2 {
        latest_pair_leg(c, p, p.len() - 1)
    } else {
        None
    };
    if from_pivots is Some {
        from_pivots
    } else {
        fallback_leg(c)
    }
}

/// A leg lies inside the history, holds its best high and best low, and
/// its best high is above its best low.
pub open spec fn is_real_leg(c: Seq<Extremes>, l: SwingLeg) -> bool {
    &&& l.start_index <= l.high_at <= l.end_index
    &&& l.start_index <= l.low_at <= l.end_index
    &&& l.end_index < c.len()
    &&& gt(c[l.high_at as int].high, c[l.low_at as int].low)
}

fn is_finite_key(k: Option<i64>) -> (r: bool)
    ensures
        r == finite(k),
{
    match k {
        Some(x) => NEG_INF_KEY < x && x < INF_KEY,
        None => false,
    }
}

fn gt_key(a: Option<i64>, b: Option<i64>) -> (r: bool)
    ensures
        r == gt(a, b),
{
    match (a, b) {
        (Some(x), Some(y)) => x > y,
        _ => false,
    }
}

fn ge_key(a: Option<i64>, b: Option<i64>) -> (r: bool)
    ensures
        r == ge(a, b),
{
    match (a, b) {
        (Some(x), Some(y)) => x >= y,
        _ => false,
    }
}

fn pivot_high_at(c: &Vec<Extremes>, i: usize) -> (r: bool)
    requires
        SWING_PIVOT_RADIUS <= i,
        i + SWING_PIVOT_RADIUS < c@.len(),
    ensures
        r == is_pivot_high(c@, i as int),
{
    let h = c[i].high;
    if !is_finite_key(h) {
        return false;
    }
    let mut j = i - SWING_PIVOT_RADIUS;
    while j <= i + SWING_PIVOT_RADIUS
        invariant
            SWING_PIVOT_RADIUS <= i,
            i + SWING_PIVOT_RADIUS < c.len(),
            h == c@[i as int].high,
            i - SWING_PIVOT_RADIUS <= j <= i + SWING_PIVOT_RADIUS + 1,
            forall|k: int| i - radius() <= k < j && k != i ==> gt(h, #[trigger] c@[k].high),
        decreases i + SWING_PIVOT_RADIUS + 1 - j,
    {
        if j != i && !gt_key(h, c[j].high) {
            return false;
        }
        j += 1;
    }
    true
}

fn pivot_low_at(c: &Vec<Extremes>, i: usize) -> (r: bool)
    requires
        SWING_PIVOT_RADIUS <= i,
        i + SWING_PIVOT_RADIUS < c@.len(),
    ensures
        r == is_pivot_low(c@, i as int),
{
    let l = c[i].low;
    if !is_finite_key(l) {
        return false;
    }
    let mut j = i - SWING_PIVOT_RADIUS;
    while j <= i + SWING_PIVOT_RADIUS
        invariant
            SWING_PIVOT_RADIUS <= i,
            i + SWING_PIVOT_RADIUS < c.len(),
            l == c@[i as int].low,
            i - SWING_PIVOT_RADIUS <= j <= i + SWING_PIVOT_RADIUS + 1,
            forall|k: int| i - radius() <= k < j && k != i ==> gt(#[trigger] c@[k].low, l),
        decreases i + SWING_PIVOT_RADIUS + 1 - j,
    {
        if j != i && !gt_key(c[j].low, l) {
            return false;
        }
        j += 1;
    }
    true
}

/// Every pivot lies before `n`.
pub open spec fn pivots_before(p: Seq<Pivot>, n: int) -> bool {
    forall|k: int| 0 <= k < p.len() ==> (#[trigger] p[k]).index < n
}

fn push_pivot_exec(p: &mut Vec<Pivot>, kind: PivotKind, i: usize, c: &Vec<Extremes>)
    requires
        i < c@.len(),
        pivots_before(old(p)@, i as int),
    ensures
        final(p)@ == push_pivot(old(p)@, kind, i as int, c@),
        pivots_before(final(p)@, i + 1),
{
    let n = p.len();
    if n > 0 && p[n - 1].kind == kind {
        let prev = p[n - 1].index;
        let replace = match kind {
            PivotKind::High => ge_key(c[i].high, c[prev].high),
            PivotKind::Low => ge_key(c[prev].low, c[i].low),
        };
        if replace {
            p.set(n - 1, Pivot { index: i, kind });
        }
    } else {
        p.push(Pivot { index: i, kind });
    }
}

/// The pivots of the history (see `pivots`).
fn find_pivots(c: &Vec<Extremes>) -> (p: Vec<Pivot>)
    ensures
        p@ == pivots(c@),
        pivots_before(p@, c@.len() as int),
{
    let mut p: Vec<Pivot> = Vec::new();
    if c.len() < SWING_PIVOT_RADIUS * 2 + 1 {
        return p;
    }
    let mut index = SWING_PIVOT_RADIUS;
    while index < c.len() - SWING_PIVOT_RADIUS
        invariant
            c@.len() >= 2 * radius() + 1,
            SWING_PIVOT_RADIUS <= index <= c@.len() - SWING_PIVOT_RADIUS,
            p@ == pivots_through(c@, index as int),
            pivots_before(p@, index as int),
        decreases c@.len() - index,
    {
        if pivot_high_at(c, index) {
            push_pivot_exec(&mut p, PivotKind::High, index, c);
        } else if pivot_low_at(c, index) {
            push_pivot_exec(&mut p, PivotKind::Low, index, c);
        }
        index += 1;
    }
    p
}

fn arg_high_exec(c: &Vec<Extremes>, s: usize, e: usize, only_finite: bool) -> (r: Option<usize>)
    requires
        e <= c@.len(),
    ensures
        match r {
            Some(h) => arg_high(c@, s as int, e as int, only_finite) == Some(h as int) && s <= h < e,
            None => arg_high(c@, s as int, e as int, only_finite) is None,
        },
{
    if e <= s {
        return None;
    }
    let mut best: Option<usize> = None;
    let mut j = s;
    while j < e
        invariant
            e <= c@.len(),
            s <= j <= e,
            match best {
                Some(b) => arg_high(c@, s as int, j as int, only_finite) == Some(b as int) && s <= b < j,
                None => arg_high(c@, s as int, j as int, only_finite) is None,
            },
        decreases e - j,
    {
        let x = c[j].high;
        let ok = if only_finite {
            is_finite_key(x)
        } else {
            x.is_some()
        };
        if ok {
            best = match best {
                Some(b) => if gt_key(x, c[b].high) {
                    Some(j)
                } else {
                    Some(b)
                },
                None => Some(j),
            };
        }
        j += 1;
    }
    best
}

fn arg_low_exec(c: &Vec<Extremes>, s: usize, e: usize, only_finite: bool) -> (r: Option<usize>)
    requires
        e <= c@.len(),
    ensures
        match r {
            Some(l) => arg_low(c@, s as int, e as int, only_finite) == Some(l as int) && s <= l < e,
            None => arg_low(c@, s as int, e as int, only_finite) is None,
        },
{
    if e <= s {
        return None;
    }
    let mut best: Option<usize> = None;
    let mut j = s;
    while j < e
        invariant
            e <= c@.len(),
            s <= j <= e,
            match best {
                Some(b) => arg_low(c@, s as int, j as int, only_finite) == Some(b as int) && s <= b < j,
                None => arg_low(c@, s as int, j as int, only_finite) is None,
            },
        decreases e - j,
    {
        let x = c[j].low;
        let ok = if only_finite {
            is_finite_key(x)
        } else {
            x.is_some()
        };
        if ok {
            best = match best {
                Some(b) => if gt_key(c[b].low, x) {
                    Some(j)
                } else {
                    Some(b)
                },
                None => Some(j),
            };
        }
        j += 1;
    }
    best
}

fn leg_of_exec(c: &Vec<Extremes>, s: usize, e: usize, d: SwingDirection, only_finite: bool) -> (r: Option<SwingLeg>)
    requires
        e < c.len(),
    ensures
        r == leg_of(c@, s as int, e as int, d, only_finite),
        r matches Some(l) ==> is_real_leg(c@, l) && l.start_index == s && l.end_index == e,
{
    match (arg_high_exec(c, s, e + 1, only_finite), arg_low_exec(c, s, e + 1, only_finite)) {
        (Some(h), Some(l)) => if gt_key(c[h].high, c[l].low) {
            Some(SwingLeg { start_index: s, end_index: e, direction: d, high_at: h, low_at: l })
        } else {
            None
        },
        _ => None,
    }
}

fn fallback_leg_exec(c: &Vec<Extremes>) -> (r: Option<SwingLeg>)
    ensures
        r == fallback_leg(c@),
        r matches Some(l) ==> is_real_leg(c@, l),
{
    if c.len() == 0 {
        return None;
    }
    let mut h: usize = 0;
    let mut l: usize = 0;
    let mut n: usize = 1;
    while n < c.len()
        invariant
            1 <= n <= c@.len(),
            h == max_by_high(c@, n as int),
            l == min_by_low(c@, n as int),
            h < n,
            l < n,
        decreases c@.len() - n,
    {
        if !gt_key(c[h].high, c[n].high) {
            h = n;
        }
        if gt_key(c[l].low, c[n].low) {
            l = n;
        }
        n += 1;
    }
    if h == l {
        None
    } else if l < h {
        leg_of_exec(c, l, h, SwingDirection::Bullish, false)
    } else {
        leg_of_exec(c, h, l, SwingDirection::Bearish, false)
    }
}

/// The latest swing leg of candles given by their high/low keys: the last
/// leg between neighbouring alternating pivots whose best finite high is
/// above its best finite low; else the leg between the history's best
/// high and best low, when they are different candles and the leg's best
/// high is above its best low.
pub fn latest_swing(c: &Vec<Extremes>) -> (r: Option<SwingLeg>)
    ensures
        r == spec_latest_swing(c@),
        r matches Some(l) ==> is_real_leg(c@, l) && l.start_index < l.end_index && holds_best(c@, l),
{
    let _n: usize = c.len();
    proof {
        lemma_swing_leg_spans_its_extremes(c@);
    }
    let p = find_pivots(c);
    let mut latest: Option<SwingLeg> = None;
    if p.len() >= 2 {
        let mut k: usize = 1;
        while k < p.len()
            invariant
                p@ == pivots(c@),
                pivots_before(p@, c@.len() as int),
                p@.len() >= 2,
                1 <= k <= p@.len(),
                latest == latest_pair_leg(c@, p@, k - 1),
                latest matches Some(l) ==> is_real_leg(c@, l),
            decreases p@.len() - k,
        {
            let a = p[k - 1];
            let b = p[k];
            let leg = if a.kind == PivotKind::Low && b.kind == PivotKind::High {
                leg_of_exec(c, a.index, b.index, SwingDirection::Bullish, true)
            } else if a.kind == PivotKind::High && b.kind == PivotKind::Low {
                leg_of_exec(c, a.index, b.index, SwingDirection::Bearish, true)
            } else {
                None
            };
            if leg.is_some() {
                latest = leg;
            }
            k += 1;
        }
    }
    if latest.is_some() {
        return latest;
    }
    fallback_leg_exec(c)
}

/// Every finite high of the leg's candles is at most its best high, and
/// every finite low at least its best low.
pub open spec fn holds_best(c: Seq<Extremes>, l: SwingLeg) -> bool {
    &&& forall|i: int|
        l.start_index <= i <= l.end_index && finite(#[trigger] c[i].high) ==> !gt(
            c[i].high,
            c[l.high_at as int].high,
        )
    &&& forall|i: int|
        l.start_index <= i <= l.end_index && finite(#[trigger] c[i].low) ==> !gt(
            c[l.low_at as int].low,
            c[i].low,
        )
}

proof fn lemma_arg_high_best(c: Seq<Extremes>, s: int, e: int, only_finite: bool)
    ensures
        arg_high(c, s, e, only_finite) matches Some(h) ==> s <= h < e && c[h].high is Some && forall|i: int|
            s <= i < e && finite(#[trigger] c[i].high) ==> !gt(c[i].high, c[h].high),
        arg_high(c, s, e, only_finite) is None ==> forall|i: int|
            s <= i < e ==> !finite(#[trigger] c[i].high),
    decreases e - s,
{
    if e > s {
        lemma_arg_high_best(c, s, e - 1, only_finite);
    }
}

proof fn lemma_arg_low_best(c: Seq<Extremes>, s: int, e: int, only_finite: bool)
    ensures
        arg_low(c, s, e, only_finite) matches Some(l) ==> s <= l < e && c[l].low is Some && forall|i: int|
            s <= i < e && finite(#[trigger] c[i].low) ==> !gt(c[l].low, c[i].low),
        arg_low(c, s, e, only_finite) is None ==> forall|i: int|
            s <= i < e ==> !finite(#[trigger] c[i].low),
    decreases e - s,
{
    if e > s {
        lemma_arg_low_best(c, s, e - 1, only_finite);
    }
}

proof fn lemma_leg_of_best(c: Seq<Extremes>, s: int, e: int, d: SwingDirection, only_finite: bool)
    requires
        0 <= s,
        e < c.len() <= usize::MAX,
    ensures
        leg_of(c, s, e, d, only_finite) matches Some(l) ==> holds_best(c, l) && l.start_index == s
            && l.end_index == e,
{
    lemma_arg_high_best(c, s, e + 1, only_finite);
    lemma_arg_low_best(c, s, e + 1, only_finite);
}

proof fn lemma_extreme_bounds(c: Seq<Extremes>, n: int)
    requires
        n >= 1,
    ensures
        0 <= max_by_high(c, n) < n,
        0 <= min_by_low(c, n) < n,
    decreases n,
{
    if n > 1 {
        lemma_extreme_bounds(c, n - 1);
    }
}

/// Pivot indices strictly increase and lie below `n`.
pub open spec fn pivots_increasing(p: Seq<Pivot>, n: int) -> bool {
    &&& forall|j: int, k: int| 0 <= j < k < p.len() ==> (#[trigger] p[j]).index < (#[trigger] p[k]).index
    &&& forall|k: int| 0 <= k < p.len() ==> (#[trigger] p[k]).index < n
}

proof fn lemma_pivots_increasing(c: Seq<Extremes>, n: int)
    requires
        n <= usize::MAX,
    ensures
        pivots_increasing(pivots_through(c, n), if n > radius() { n } else { 0 }),
    decreases n,
{
    if n > radius() {
        lemma_pivots_increasing(c, n - 1);
        let p = pivots_through(c, n - 1);
        assert(pivots_increasing(p, n - 1));
        let i = n - 1;
        assert forall|kind: PivotKind| pivots_increasing(#[trigger] push_pivot(p, kind, i, c), n) by {
            let q = push_pivot(p, kind, i, c);
            if p.len() > 0 && p.last().kind == kind {
                if replaces(c, kind, i, p.last().index as int) {
                    assert forall|j: int, k: int| 0 <= j < k < q.len() implies (#[trigger] q[j]).index
                        < (#[trigger] q[k]).index by {
                        if k == q.len() - 1 {
                            assert(q[j] == p[j]);
                        } else {
                            assert(q[j] == p[j] && q[k] == p[k]);
                        }
                    }
                }
            } else {
                assert forall|j: int, k: int| 0 <= j < k < q.len() implies (#[trigger] q[j]).index
                    < (#[trigger] q[k]).index by {
                    assert(q[j] == p[j]);
                    if k < p.len() {
                        assert(q[k] == p[k]);
                    }
                }
            }
        }
    }
}

proof fn lemma_pair_legs_best(c: Seq<Extremes>, p: Seq<Pivot>, k: int)
    requires
        c.len() <= usize::MAX,
        pivots_increasing(p, c.len() as int),
        k < p.len(),
    ensures
        latest_pair_leg(c, p, k) matches Some(l) ==> holds_best(c, l) && l.start_index < l.end_index,
    decreases k,
{
    if k > 0 {
        lemma_pair_legs_best(c, p, k - 1);
        let a = p[k - 1];
        let b = p[k];
        assert(a.index < b.index);
        lemma_leg_of_best(c, a.index as int, b.index as int, SwingDirection::Bullish, true);
        lemma_leg_of_best(c, a.index as int, b.index as int, SwingDirection::Bearish, true);
    }
}

/// The latest swing leg runs forward between two different candles and is
/// anchored on its own extremes: no finite high among its candles is above
/// its best high, and no finite low is below its best low.
pub proof fn lemma_swing_leg_spans_its_extremes(c: Seq<Extremes>)
    requires
        c.len() <= usize::MAX,
    ensures
        spec_latest_swing(c) matches Some(l) ==> l.start_index < l.end_index && holds_best(c, l),
{
    let p = pivots(c);
    if c.len() >= 2 * radius() + 1 {
        lemma_pivots_increasing(c, c.len() - radius());
    }
    if p.len() >= 2 {
        lemma_pair_legs_best(c, p, p.len() - 1);
    }
    if c.len() > 0 {
        let h = max_by_high(c, c.len() as int);
        let l = min_by_low(c, c.len() as int);
        lemma_extreme_bounds(c, c.len() as int);
        lemma_leg_of_best(c, l, h, SwingDirection::Bullish, false);
        lemma_leg_of_best(c, h, l, SwingDirection::Bearish, false);
    }
}

proof fn lemma_last_qualifying_pair(c: Seq<Extremes>, p: Seq<Pivot>, k: int, j: int) -> (m: int)
    requires
        0 <= j < k < p.len(),
        pair_leg(c, p[j], p[j + 1]) is Some,
    ensures
        j <= m < k,
        pair_leg(c, p[m], p[m + 1]) is Some,
        latest_pair_leg(c, p, k) == pair_leg(c, p[m], p[m + 1]),
        forall|i: int| m < i < k ==> (#[trigger] pair_leg(c, p[i], p[i + 1])) is None,
    decreases k,
{
    if pair_leg(c, p[k - 1], p[k]) is Some {
        k - 1
    } else {
        let m = lemma_last_qualifying_pair(c, p, k - 1, j);
        assert forall|i: int| m < i < k implies (#[trigger] pair_leg(c, p[i], p[i + 1])) is None by {
            if i == k - 1 {
                assert(p[i + 1] == p[k]);
            }
        }
        m
    }
}

/// The latest alternating pivot pair wins: when the pair of neighbouring
/// pivots `j`, `j + 1` gives a leg, the swing is a pivot leg too, taken
/// from that pair or a later one, starting no earlier than pivot `j`, and
/// no pair after the one it is taken from gives a leg. The leg runs from
/// the first pivot of its pair to the second, the two are of different
/// kinds, and it is bullish exactly when it starts at a low.
pub proof fn lemma_latest_pair_wins(c: Seq<Extremes>, j: int)
    requires
        c.len() <= usize::MAX,
        0 <= j,
        j + 1 < pivots(c).len(),
        pair_leg(c, pivots(c)[j], pivots(c)[j + 1]) is Some,
    ensures
        spec_latest_swing(c) matches Some(l) && l.start_index >= pivots(c)[j].index && exists|m: int|
            j <= m && m + 1 < pivots(c).len() && spec_latest_swing(c) == #[trigger] pair_leg(
                c,
                pivots(c)[m],
                pivots(c)[m + 1],
            ) && l.start_index == pivots(c)[m].index && l.end_index == pivots(c)[m + 1].index
                && pivots(c)[m].kind != pivots(c)[m + 1].kind && (l.direction == SwingDirection::Bullish
                <==> pivots(c)[m].kind == PivotKind::Low) && (forall|i: int|
                m < i && i + 1 < pivots(c).len() ==> (#[trigger] pair_leg(c, pivots(c)[i], pivots(c)[i + 1])) is None),
{
    let p = pivots(c);
    lemma_pivots_increasing(c, c.len() - radius());
    let m = lemma_last_qualifying_pair(c, p, p.len() - 1, j);
    let a = p[m];
    let b = p[m + 1];
    lemma_leg_of_best(c, a.index as int, b.index as int, SwingDirection::Bullish, true);
    lemma_leg_of_best(c, a.index as int, b.index as int, SwingDirection::Bearish, true);
    if m > j {
        assert(p[j].index < p[m].index);
    }
}

} // verus!
