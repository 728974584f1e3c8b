//! The table of the latest quote per symbol.
use vstd::prelude::*;
use crate::decimal::Decimal;
use crate::text::same_text;

verus! {

/// The latest observation of one symbol.
#[derive(Clone, Debug, PartialEq)]
pub struct Quote {
    pub symbol: String,
    pub value: Decimal,
    /// When the value was observed, as RFC 3339 text.
    pub observed_at: String,
}

impl Quote {
    /// What the store keeps for the quote's symbol.
    pub open spec fn entry(self) -> (Decimal, Seq<char>) {
        (self.value, self.observed_at@)
    }
}

/// The quotes of `s`, by symbol; a later quote of a symbol replaces an
/// earlier one.
pub open spec fn table(s: Seq<Quote>) -> Map<Seq<char>, (Decimal, Seq<char>)>
    decreases s.len(),
{
    if s.len() == 0 {
        Map::empty()
    } else {
        table(s.drop_last()).insert(s.last().symbol@, s.last().entry())
    }
}

/// `r` is what a lookup of `symbol` in the table `m` gives: the quote of the
/// symbol with its latest value and time, or none when it has none.
pub open spec fn latest_answer(
    m: Map<Seq<char>, (Decimal, Seq<char>)>,
    symbol: Seq<char>,
    r: Option<Quote>,
) -> bool {
    match r {
        Some(q) => m.contains_key(symbol) && q.symbol@ == symbol && q.entry() == m[symbol],
        None => !m.contains_key(symbol),
    }
}

pub open spec fn unique_symbols(s: Seq<Quote>) -> bool {
    forall|i: int, j: int|
        0 <= i < s.len() && 0 <= j < s.len() && i != j ==> s[i].symbol@ != s[j].symbol@
}

proof fn lemma_table(s: Seq<Quote>)
    ensures
        forall|k: Seq<char>|
            table(s).contains_key(k) <==> exists|i: int| 0 <= i < s.len() && s[i].symbol@ == k,
        unique_symbols(s) ==> forall|i: int|
            0 <= i < s.len() ==> table(s)[#[trigger] s[i].symbol@] == s[i].entry(),
    decreases s.len(),
{
    if s.len() > 0 {
        let p = s.drop_last();
        lemma_table(p);
        assert forall|k: Seq<char>|
            table(s).contains_key(k) <==> exists|i: int|
                0 <= i < s.len() && s[i].symbol@ == k by {
            if table(s).contains_key(k) {
                if k == s.last().symbol@ {
                    assert(s[s.len() - 1].symbol@ == k);
                } else {
                    assert(table(p).contains_key(k));
                    let i = choose|i: int| 0 <= i < p.len() && p[i].symbol@ == k;
                    assert(s[i] == p[i]);
                }
            }
            if exists|i: int| 0 <= i < s.len() && s[i].symbol@ == k {
                let i = choose|i: int| 0 <= i < s.len() && s[i].symbol@ == k;
                if i < p.len() {
                    assert(p[i] == s[i]);
                    assert(table(p).contains_key(k));
                }
            }
        }
        if unique_symbols(s) {
            assert forall|i: int| 0 <= i < s.len() implies table(s)[#[trigger] s[i].symbol@]
                == s[i].entry() by {
                if i < p.len() {
                    assert(p[i] == s[i]);
                    assert(s[i].symbol@ != s[s.len() - 1].symbol@);
                }
            }
        }
    }
}

/// The latest quote per symbol, at most one for each symbol.
pub struct RateStore {
    quotes: Vec<Quote>,
}

impl View for RateStore {
    type V = Map<Seq<char>, (Decimal, Seq<char>)>;

    /// Symbol to the value and time of its latest quote.
    closed spec fn view(&self) -> Self::V {
        table(self.quotes@)
    }
}

impl RateStore {
    pub closed spec fn wf(&self) -> bool {
        unique_symbols(self.quotes@)
    }

    /// A store with no quotes.
    pub fn new() -> (r: RateStore)
        ensures
            r.wf(),
            r@ == Map::<Seq<char>, (Decimal, Seq<char>)>::empty(),
    {
        RateStore { quotes: Vec::new() }
    }

    /// Number of symbols with a quote.
    pub fn len(&self) -> (r: usize)
        requires
            self.wf(),
        ensures
            r == self@.len(),
    {
        proof {
            lemma_len_table(self.quotes@);
        }
        self.quotes.len()
    }

    fn position(&self, symbol: &str) -> (r: Option<usize>)
        requires
            self.wf(),
        ensures
            match r {
                Some(i) => i < self.quotes@.len() && self.quotes@[i as int].symbol@ == symbol@,
                None => forall|i: int|
                    0 <= i < self.quotes@.len() ==> self.quotes@[i].symbol@ != symbol@,
            },
    {
        let mut i: usize = 0;
        while i < self.quotes.len()
            invariant
                i <= self.quotes@.len(),
                forall|k: int| 0 <= k < i ==> self.quotes@[k].symbol@ != symbol@,
            decreases self.quotes@.len() - i,
        {
            if same_text(self.quotes[i].symbol.as_str(), symbol) {
                return Some(i);
            }
            i = i + 1;
        }
        None
    }

    /// Records `value`, observed at `observed_at`, as the latest quote of
    /// `symbol`, replacing any earlier one.
    pub fn upsert(&mut self, symbol: String, value: Decimal, observed_at: String)
        requires
            old(self).wf(),
        ensures
            final(self).wf(),
            final(self)@ == old(self)@.insert(symbol@, (value, observed_at@)),
    {
        let ghost before = self.quotes@;
        proof {
            lemma_table(before);
        }
        let q = Quote { symbol, value, observed_at };
        match self.position(q.symbol.as_str()) {
            Some(i) => {
                self.quotes.set(i, q);
                let ghost after = self.quotes@;
                assert(after == before.update(i as int, q));
                assert(unique_symbols(after)) by {
                    assert forall|a: int, b: int|
                        0 <= a < after.len() && 0 <= b < after.len() && a != b implies after[a].symbol@
                        != after[b].symbol@ by {
                        if a != i && b != i {
                            assert(after[a] == before[a] && after[b] == before[b]);
                        } else if a == i {
                            assert(after[b] == before[b]);
                        } else {
                            assert(after[a] == before[a]);
                        }
                    }
                }
                proof {
                    lemma_table(after);
                }
                assert(table(after) =~= table(before).insert(q.symbol@, q.entry())) by {
                    assert forall|k: Seq<char>| #[trigger] table(after).contains_key(k)
                        <==> table(before).insert(q.symbol@, q.entry()).contains_key(k) by {
                        if k != q.symbol@ {
                            if exists|j: int| 0 <= j < before.len() && before[j].symbol@ == k {
                                let j = choose|j: int|
                                    0 <= j < before.len() && before[j].symbol@ == k;
                                assert(after[j] == before[j]);
                            }
                            if exists|j: int| 0 <= j < after.len() && after[j].symbol@ == k {
                                let j = choose|j: int|
                                    0 <= j < after.len() && after[j].symbol@ == k;
                                assert(after[j] == before[j]);
                            }
                        } else {
                            assert(after[i as int].symbol@ == k);
                        }
                    }
                    assert forall|k: Seq<char>| #[trigger] table(after).contains_key(k) implies table(
                        after,
                    )[k] == table(before).insert(q.symbol@, q.entry())[k] by {
                        let j = choose|j: int| 0 <= j < after.len() && after[j].symbol@ == k;
                        if j != i {
                            assert(after[j] == before[j]);
                        }
                    }
                }
            },
            None => {
                self.quotes.push(q);
                let ghost after = self.quotes@;
                assert(after.drop_last() =~= before);
                assert(unique_symbols(after)) by {
                    assert forall|a: int, b: int|
                        0 <= a < after.len() && 0 <= b < after.len() && a != b implies after[a].symbol@
                        != after[b].symbol@ by {
                        if a < before.len() {
                            assert(after[a] == before[a]);
                        }
                        if b < before.len() {
                            assert(after[b] == before[b]);
                        }
                    }
                }
            },
        }
    }

    /// The latest quote of `symbol`, or none when it has none.
    pub fn latest(&self, symbol: &str) -> (r: Option<Quote>)
        requires
            self.wf(),
        ensures
            latest_answer(self@, symbol@, r),
    {
        proof {
            lemma_table(self.quotes@);
        }
        match self.position(symbol) {
            Some(i) => {
                let q = &self.quotes[i];
                Some(
                    Quote {
                        symbol: q.symbol.clone(),
                        value: q.value,
                        observed_at: q.observed_at.clone(),
                    },
                )
            },
            None => None,
        }
    }

    /// The latest quote of each of `symbols`, in their order.
    pub fn latest_all(&self, symbols: &Vec<String>) -> (r: Vec<Option<Quote>>)
        requires
            self.wf(),
        ensures
            r@.len() == symbols@.len(),
            forall|i: int|
                0 <= i < symbols@.len() ==> latest_answer(self@, symbols@[i]@, #[trigger] r@[i]),
    {
        let mut r: Vec<Option<Quote>> = Vec::new();
        let mut i: usize = 0;
        while i < symbols.len()
            invariant
                self.wf(),
                i <= symbols@.len(),
                r@.len() == i,
                forall|k: int|
                    0 <= k < i ==> latest_answer(self@, symbols@[k]@, #[trigger] r@[k]),
            decreases symbols@.len() - i,
        {
            r.push(self.latest(symbols[i].as_str()));
            i = i + 1;
        }
        r
    }
}

proof fn lemma_len_table(s: Seq<Quote>)
    requires
        unique_symbols(s),
    ensures
        table(s).len() == s.len(),
        table(s).dom().finite(),
    decreases s.len(),
{
    if s.len() > 0 {
        let p = s.drop_last();
        assert(unique_symbols(p)) by {
            assert forall|a: int, b: int|
                0 <= a < p.len() && 0 <= b < p.len() && a != b implies p[a].symbol@
                != p[b].symbol@ by {
                assert(p[a] == s[a] && p[b] == s[b]);
            }
        }
        lemma_len_table(p);
        lemma_table(p);
        if table(p).contains_key(s.last().symbol@) {
            let i = choose|i: int| 0 <= i < p.len() && p[i].symbol@ == s.last().symbol@;
            assert(p[i] == s[i]);
        }
    }
}

/// A store that has never received a quote for a symbol answers a lookup of
/// it with nothing.
pub proof fn law_absent_symbol(store: RateStore, symbol: Seq<char>, answer: Option<Quote>)
    requires
        !store@.contains_key(symbol),
        latest_answer(store@, symbol, answer),
    ensures
        answer is None,
{
}

/// Upserting the same symbol, value and time twice leaves the store as one
/// upsert does: a single entry for the symbol, holding that value.
pub proof fn law_upsert_idempotent(
    before: RateStore,
    once: RateStore,
    twice: RateStore,
    symbol: Seq<char>,
    value: Decimal,
    observed_at: Seq<char>,
)
    requires
        once@ == before@.insert(symbol, (value, observed_at)),
        twice@ == once@.insert(symbol, (value, observed_at)),
    ensures
        twice@ == once@,
        twice@.contains_key(symbol),
        twice@[symbol] == (value, observed_at),
        twice@.dom() == before@.dom().insert(symbol),
{
    assert(twice@ =~= once@);
}

/// After an upsert of `value` for `symbol`, a lookup of the symbol gives that
/// value and time, whatever the store held before.
pub proof fn law_last_write_wins(
    before: RateStore,
    after: RateStore,
    symbol: Seq<char>,
    value: Decimal,
    observed_at: Seq<char>,
    answer: Option<Quote>,
)
    requires
        after@ == before@.insert(symbol, (value, observed_at)),
        latest_answer(after@, symbol, answer),
    ensures
        answer matches Some(q) && q.value == value && q.observed_at@ == observed_at
            && q.symbol@ == symbol,
{
}

} // verus!
