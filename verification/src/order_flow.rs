//! Order-flow event bookkeeping: per-kind debouncing of emitted events and
//! the trade side an event asks for.
use vstd::prelude::*;
use crate::text::{chars_of, same_chars};

verus! {

/// Minimum spacing between two events of the same kind.
pub const DEBOUNCE_MS: i64 = 2000;

/// When an event of `kind` was last emitted (the first record for it).
pub open spec fn last_emit_of(s: Seq<(Seq<char>, i64)>, kind: Seq<char>) -> Option<i64>
    decreases s.len(),
{
    if s.len() == 0 {
        None
    } else if s[0].0 == kind {
        Some(s[0].1)
    } else {
        last_emit_of(s.drop_first(), kind)
    }
}

/// An event of `kind` may go out at `now`: none went out before, or the
/// last one is at least `DEBOUNCE_MS` old.
pub open spec fn may_emit(s: Seq<(Seq<char>, i64)>, kind: Seq<char>, now: i64) -> bool {
    match last_emit_of(s, kind) {
        Some(last) => now - last >= DEBOUNCE_MS,
        None => true,
    }
}

/// Per-kind record of the last emission time.
pub struct Debouncer {
    last_emit: Vec<(String, i64)>,
}

impl View for Debouncer {
    type V = Seq<(Seq<char>, i64)>;

    closed spec fn view(&self) -> Seq<(Seq<char>, i64)> {
        self.last_emit@.map_values(|e: (String, i64)| (e.0@, e.1))
    }
}

impl Debouncer {
    pub fn new() -> (d: Self)
        ensures
            d@ == Seq::<(Seq<char>, i64)>::empty(),
    {
        Debouncer { last_emit: Vec::new() }
    }

    /// When an event of `kind` was last emitted, if ever.
    pub fn last_emit(&self, kind: &str) -> (r: Option<i64>)
        ensures
            r == last_emit_of(self@, kind@),
    {
        let kc = chars_of(kind);
        let n = self.last_emit.len();
        let mut i: usize = 0;
        while i < n
            invariant
                n == self.last_emit@.len(),
                i <= n,
                kc@ == kind@,
                forall|j: int| 0 <= j < i ==> #[trigger] self@[j].0 != kind@,
            decreases n - i,
        {
            assert(self@[i as int] == (self.last_emit@[i as int].0@, self.last_emit@[i as int].1));
            if same_chars(&chars_of(self.last_emit[i].0.as_str()), &kc) {
                proof {
                    lemma_last_emit_at(self@, kind@, i as int);
                }
                return Some(self.last_emit[i].1);
            }
            i += 1;
        }
        proof {
            lemma_last_emit_absent(self@, kind@);
        }
        None
    }

    /// Whether an event of `kind` may be emitted at `now_ms`; when it may,
    /// `now_ms` becomes its kind's last emission, and nothing else changes.
    pub fn should_emit(&mut self, kind: &str, now_ms: i64) -> (r: bool)
        requires
            last_emit_of(old(self)@, kind@) matches Some(last) ==> i64::MIN <= now_ms - last
                <= i64::MAX,
        ensures
            r == may_emit(old(self)@, kind@, now_ms),
            r ==> last_emit_of(final(self)@, kind@) == Some(now_ms),
            r ==> forall|k: Seq<char>| k != kind@ ==> last_emit_of(final(self)@, k) == last_emit_of(
                old(self)@,
                k,
            ),
            !r ==> final(self)@ == old(self)@,
    {
        let kc = chars_of(kind);
        let n = self.last_emit.len();
        let mut i: usize = 0;
        while i < n
            invariant
                n == self.last_emit@.len(),
                i <= n,
                kc@ == kind@,
                forall|j: int| 0 <= j < i ==> #[trigger] self@[j].0 != kind@,
                last_emit_of(old(self)@, kind@) matches Some(last) ==> i64::MIN <= now_ms - last
                    <= i64::MAX,
                self@ == old(self)@,
            decreases n - i,
        {
            assert(self@[i as int] == (self.last_emit@[i as int].0@, self.last_emit@[i as int].1));
            if same_chars(&chars_of(self.last_emit[i].0.as_str()), &kc) {
                proof {
                    lemma_last_emit_at(self@, kind@, i as int);
                }
                let last = self.last_emit[i].1;
                if now_ms - last < DEBOUNCE_MS {
                    return false;
                }
                let ghost pre = self@;
                let name = kind.to_owned();
                self.last_emit.set(i, (name, now_ms));
                proof {
                    assert(self@ =~= pre.update(i as int, (kind@, now_ms)));
                    lemma_last_emit_update(pre, kind@, i as int, now_ms);
                }
                return true;
            }
            i += 1;
        }
        proof {
            lemma_last_emit_absent(self@, kind@);
        }
        let ghost pre = self@;
        self.last_emit.push((kind.to_owned(), now_ms));
        proof {
            assert(self@ =~= pre.push((kind@, now_ms)));
            lemma_last_emit_push(pre, kind@, now_ms);
        }
        true
    }
}

proof fn lemma_last_emit_at(s: Seq<(Seq<char>, i64)>, kind: Seq<char>, i: int)
    requires
        0 <= i < s.len(),
        s[i].0 == kind,
        forall|j: int| 0 <= j < i ==> #[trigger] s[j].0 != kind,
    ensures
        last_emit_of(s, kind) == Some(s[i].1),
    decreases i,
{
    if i > 0 {
        assert forall|j: int| 0 <= j < i - 1 implies #[trigger] s.drop_first()[j].0 != kind by {
            assert(s.drop_first()[j] == s[j + 1]);
        }
        lemma_last_emit_at(s.drop_first(), kind, i - 1);
    }
}

proof fn lemma_last_emit_absent(s: Seq<(Seq<char>, i64)>, kind: Seq<char>)
    requires
        forall|j: int| 0 <= j < s.len() ==> #[trigger] s[j].0 != kind,
    ensures
        last_emit_of(s, kind) is None,
    decreases s.len(),
{
    if s.len() > 0 {
        assert forall|j: int| 0 <= j < s.len() - 1 implies #[trigger] s.drop_first()[j].0 != kind by {
            assert(s.drop_first()[j] == s[j + 1]);
        }
        lemma_last_emit_absent(s.drop_first(), kind);
    }
}

proof fn lemma_last_emit_update(s: Seq<(Seq<char>, i64)>, kind: Seq<char>, i: int, t: i64)
    requires
        0 <= i < s.len(),
        s[i].0 == kind,
        forall|j: int| 0 <= j < i ==> #[trigger] s[j].0 != kind,
    ensures
        last_emit_of(s.update(i, (kind, t)), kind) == Some(t),
        forall|k: Seq<char>| k != kind ==> last_emit_of(s.update(i, (kind, t)), k) == last_emit_of(s, k),
    decreases i,
{
    let u = s.update(i, (kind, t));
    if i == 0 {
        assert(u.drop_first() =~= s.drop_first());
        assert forall|k: Seq<char>| k != kind implies last_emit_of(u, k) == last_emit_of(s, k) by {
            assert(u.drop_first() =~= s.drop_first());
        }
    } else {
        assert forall|j: int| 0 <= j < i - 1 implies #[trigger] s.drop_first()[j].0 != kind by {
            assert(s.drop_first()[j] == s[j + 1]);
        }
        lemma_last_emit_update(s.drop_first(), kind, i - 1, t);
        assert(u.drop_first() =~= s.drop_first().update(i - 1, (kind, t)));
        assert forall|k: Seq<char>| k != kind implies last_emit_of(u, k) == last_emit_of(s, k) by {
            assert(u.drop_first() =~= s.drop_first().update(i - 1, (kind, t)));
            assert(u[0] == s[0]);
            if s[0].0 != k {
                assert(last_emit_of(u, k) == last_emit_of(u.drop_first(), k));
                assert(last_emit_of(s, k) == last_emit_of(s.drop_first(), k));
            }
        }
    }
}

proof fn lemma_last_emit_push(s: Seq<(Seq<char>, i64)>, kind: Seq<char>, t: i64)
    requires
        last_emit_of(s, kind) is None,
    ensures
        last_emit_of(s.push((kind, t)), kind) == Some(t),
        forall|k: Seq<char>| k != kind ==> last_emit_of(s.push((kind, t)), k) == last_emit_of(s, k),
    decreases s.len(),
{
    if s.len() > 0 {
        lemma_last_emit_push(s.drop_first(), kind, t);
        assert(s.push((kind, t)).drop_first() =~= s.drop_first().push((kind, t)));
        assert forall|k: Seq<char>| k != kind implies last_emit_of(s.push((kind, t)), k)
            == last_emit_of(s, k) by {
            let p = s.push((kind, t));
            assert(p.drop_first() =~= s.drop_first().push((kind, t)));
            assert(p[0] == s[0]);
            if s[0].0 != k {
                assert(last_emit_of(p, k) == last_emit_of(p.drop_first(), k));
                assert(last_emit_of(s, k) == last_emit_of(s.drop_first(), k));
            }
        }
    } else {
        let p = s.push((kind, t));
        assert forall|k: Seq<char>| k != kind implies last_emit_of(p, k) == last_emit_of(s, k) by {
            assert(p.drop_first().len() == 0);
            assert(last_emit_of(p, k) == last_emit_of(p.drop_first(), k));
        }
    }
}

/// Debouncing: once an event of `kind` went out at `t`, no event of that
/// kind may go out before `t + DEBOUNCE_MS`, while any later time may.
pub proof fn lemma_debounce_window(s: Seq<(Seq<char>, i64)>, kind: Seq<char>, t: i64, now: i64)
    requires
        last_emit_of(s, kind) == Some(t),
    ensures
        may_emit(s, kind, now) <==> now - t >= DEBOUNCE_MS,
{
}

/// The trade side an order-flow event asks for: buying bubbles and buy-side
/// absorption buy, selling bubbles and sell-side absorption sell.
pub open spec fn spec_trade_side(kind: Seq<char>) -> Option<Seq<char>> {
    if kind == "BUY_BUBBLE"@ || kind == "ABS_BUY"@ {
        Some("buy"@)
    } else if kind == "SELL_BUBBLE"@ || kind == "ABS_SELL"@ {
        Some("sell"@)
    } else {
        None
    }
}

pub fn trade_side(kind: &str) -> (r: Option<String>)
    ensures
        match r {
            Some(s) => spec_trade_side(kind@) == Some(s@),
            None => spec_trade_side(kind@) is None,
        },
{
    let k = chars_of(kind);
    if same_chars(&k, &chars_of("BUY_BUBBLE")) || same_chars(&k, &chars_of("ABS_BUY")) {
        Some("buy".to_owned())
    } else if same_chars(&k, &chars_of("SELL_BUBBLE")) || same_chars(&k, &chars_of("ABS_SELL")) {
        Some("sell".to_owned())
    } else {
        None
    }
}

} // verus!
