//! The refresh cycle: commit what the providers returned into the store,
//! decide the cycle's outcome, and serialize refresh requests.
use vstd::prelude::*;
use crate::decimal::Decimal;
use crate::fetch::FetchError;
use crate::store::RateStore;

verus! {

/// One symbol's value as a provider returned it.
#[derive(Clone, Debug, PartialEq)]
pub struct SymbolValue {
    pub symbol: String,
    pub value: Decimal,
}

/// What one provider returned in one refresh: its symbols and values, possibly
/// none, or why it failed.
pub type FetchOutcome = Result<Vec<SymbolValue>, FetchError>;

/// Why a refresh cycle changed nothing.
#[derive(Clone, Copy, Debug, PartialEq, Eq, Structural)]
pub enum OrchestratorError {
    /// No provider returned a value.
    NoSourcesUpdated,
}

impl OrchestratorError {
    /// The message shown for the error.
    pub fn message(&self) -> (r: String)
        ensures
            r@ == "no sources updated"@,
    {
        String::from_str("no sources updated")
    }
}

/// What a refresh cycle tells the host when it ends.
#[derive(Clone, Copy, Debug, PartialEq, Eq, Structural)]
pub enum RefreshSignal {
    RefreshCompleted,
    RefreshFailed,
}

/// Relies on `SystemTime::now` read against `UNIX_EPOCH` by
/// `SystemTime::duration_since`: the time since the epoch, or for a clock
/// before the epoch the time until it, as whole seconds and the nanoseconds
/// below a second (`Duration::subsec_nanos` is always below one billion).
#[verifier::external_body]
fn system_clock() -> (r: Result<(u64, u32), (u64, u32)>)
    ensures
        match r {
            Ok((_, nanos)) => nanos < 1_000_000_000,
            Err((_, nanos)) => nanos < 1_000_000_000,
        },
{
    match std::time::SystemTime::now().duration_since(std::time::UNIX_EPOCH) {
        Ok(d) => Ok((d.as_secs(), d.subsec_nanos())),
        Err(e) => Err((e.duration().as_secs(), e.duration().subsec_nanos())),
    }
}

/// The RFC 3339 text of the instant `secs` seconds and `nanos` nanoseconds
/// after the Unix epoch, in UTC; none outside chrono's range of dates.
pub uninterp spec fn rfc3339_text(secs: int, nanos: nat) -> Option<Seq<char>>;

/// Relies on chrono: `DateTime::<Utc>::from_timestamp`, which gives none out
/// of its range instead of panicking, then `DateTime::to_rfc3339`. The result
/// depends on the arguments alone.
#[verifier::external_body]
fn rfc3339_at(secs: i64, nanos: u32) -> (r: Option<String>)
    ensures
        match r {
            Some(t) => rfc3339_text(secs as int, nanos as nat) == Some(t@),
            None => rfc3339_text(secs as int, nanos as nat) is None,
        },
{
    chrono::DateTime::<chrono::Utc>::from_timestamp(secs, nanos).map(|d| d.to_rfc3339())
}

/// A clock reading as seconds (negative before the epoch) and the
/// nanoseconds, below one billion, after them.
pub open spec fn epoch_offset(clock: Result<(u64, u32), (u64, u32)>) -> (int, nat) {
    match clock {
        Ok((secs, nanos)) => (secs as int, nanos as nat),
        Err((secs, nanos)) => if nanos == 0 {
            (-secs, 0nat)
        } else {
            (-secs - 1, (1_000_000_000 - nanos) as nat)
        },
    }
}

/// The RFC 3339 text of a clock reading; empty when chrono cannot represent it.
pub open spec fn timestamp_of(clock: Result<(u64, u32), (u64, u32)>) -> Seq<char> {
    let (secs, nanos) = epoch_offset(clock);
    if i64::MIN <= secs <= i64::MAX {
        match rfc3339_text(secs, nanos) {
            Some(t) => t,
            None => Seq::empty(),
        }
    } else {
        Seq::empty()
    }
}

/// The RFC 3339 text of a clock reading: `Ok` holds the time since the Unix
/// epoch and `Err` the time until it, as seconds and nanoseconds.
pub fn timestamp_text(clock: Result<(u64, u32), (u64, u32)>) -> (r: String)
    requires
        match clock {
            Ok((_, nanos)) => nanos < 1_000_000_000,
            Err((_, nanos)) => nanos < 1_000_000_000,
        },
    ensures
        r@ == timestamp_of(clock),
{
    let (secs, nanos): (i64, u32) = match clock {
        Ok((s, n)) => {
            if s > i64::MAX as u64 {
                return String::new();
            }
            (s as i64, n)
        },
        Err((s, n)) => {
            let (back, rest): (i128, u32) = if n == 0 {
                (-(s as i128), 0)
            } else {
                (-(s as i128) - 1, 1_000_000_000 - n)
            };
            if back < i64::MIN as i128 {
                return String::new();
            }
            (back as i64, rest)
        },
    };
    match rfc3339_at(secs, nanos) {
        Some(t) => t,
        None => String::new(),
    }
}

/// Where the refresh cycle stands.
#[derive(Clone, Copy, Debug, PartialEq, Eq, Structural)]
pub enum Phase {
    /// Waiting for the timer or a manual request.
    Idle,
    /// The providers are being asked.
    Fetching,
}

/// What to do on a refresh request.
#[derive(Clone, Copy, Debug, PartialEq, Eq, Structural)]
pub enum TriggerStep {
    /// Ask the providers now.
    StartFetch,
    /// A cycle is under way; the request is folded into one more cycle after it.
    Coalesced,
}

/// How a cycle ended, and whether another one is owed.
#[derive(Debug)]
pub struct CycleReport {
    pub result: Result<Vec<SymbolValue>, OrchestratorError>,
    pub signal: RefreshSignal,
    /// A request arrived during the cycle: ask the providers again.
    pub fetch_again: bool,
    /// The time at which the committed values were observed.
    pub observed_at: String,
}

/// Serializes refresh requests, so that no two cycles commit at once.
pub struct Orchestrator {
    phase: Phase,
    pending: bool,
}

impl Orchestrator {
    pub closed spec fn phase(&self) -> Phase {
        self.phase
    }

    /// A request arrived while a cycle was under way.
    pub closed spec fn pending(&self) -> bool {
        self.pending
    }

    pub open spec fn wf(&self) -> bool {
        self.phase() == Phase::Idle ==> !self.pending()
    }

    pub fn new() -> (r: Orchestrator)
        ensures
            r.wf(),
            r.phase() == Phase::Idle,
            !r.pending(),
    {
        Orchestrator { phase: Phase::Idle, pending: false }
    }

    pub fn current_phase(&self) -> (r: Phase)
        ensures
            r == self.phase(),
    {
        self.phase
    }

    /// The timer fired or a manual refresh was requested.
    pub fn on_trigger(&mut self) -> (r: TriggerStep)
        requires
            old(self).wf(),
        ensures
            final(self).wf(),
            final(self).phase() == Phase::Fetching,
            old(self).phase() == Phase::Idle ==> r == TriggerStep::StartFetch
                && !final(self).pending(),
            old(self).phase() == Phase::Fetching ==> r == TriggerStep::Coalesced
                && final(self).pending(),
    {
        match self.phase {
            Phase::Idle => {
                self.phase = Phase::Fetching;
                self.pending = false;
                TriggerStep::StartFetch
            },
            Phase::Fetching => {
                self.pending = true;
                TriggerStep::Coalesced
            },
        }
    }

    /// The providers returned `outcomes`: commits them, observed at
    /// `observed_at`, and ends the cycle, or starts the one that a request
    /// during it asked for.
    pub fn finish(
        &mut self,
        store: &mut RateStore,
        outcomes: &Vec<FetchOutcome>,
        observed_at: String,
    ) -> (r: CycleReport)
        requires
            old(self).wf(),
            old(store).wf(),
        ensures
            final(self).wf(),
            final(store).wf(),
            final(store)@ == apply_pairs(old(store)@, committed_pairs(outcomes@), observed_at@),
            match r.result {
                Ok(v) => refresh_result(outcomes@) == Ok::<_, OrchestratorError>(v@),
                Err(e) => refresh_result(outcomes@) == Err::<Seq<SymbolValue>, _>(e),
            },
            r.signal == signal_of(r.result),
            r.observed_at == observed_at,
            r.fetch_again == old(self).pending(),
            !final(self).pending(),
            final(self).phase() == if old(self).pending() {
                Phase::Fetching
            } else {
                Phase::Idle
            },
    {
        let result = commit_refresh(store, outcomes, &observed_at);
        let signal = signal_for(&result);
        let fetch_again = self.pending;
        self.pending = false;
        self.phase = if fetch_again {
            Phase::Fetching
        } else {
            Phase::Idle
        };
        CycleReport { result, signal, fetch_again, observed_at }
    }

    /// `finish` with the current time as the time of observation, or with an
    /// empty time when the clock reads outside chrono's range of dates.
    pub fn finish_now(&mut self, store: &mut RateStore, outcomes: &Vec<FetchOutcome>) -> (r:
        CycleReport)
        requires
            old(self).wf(),
            old(store).wf(),
        ensures
            final(self).wf(),
            final(store).wf(),
            final(store)@ == apply_pairs(
                old(store)@,
                committed_pairs(outcomes@),
                r.observed_at@,
            ),
            match r.result {
                Ok(v) => refresh_result(outcomes@) == Ok::<_, OrchestratorError>(v@),
                Err(e) => refresh_result(outcomes@) == Err::<Seq<SymbolValue>, _>(e),
            },
            r.signal == signal_of(r.result),
            r.fetch_again == old(self).pending(),
            !final(self).pending(),
            final(self).phase() == if old(self).pending() {
                Phase::Fetching
            } else {
                Phase::Idle
            },
    {
        let now = timestamp_text(system_clock());
        self.finish(store, outcomes, now)
    }
}

/// The values that the successful outcomes carry, in order.
pub open spec fn committed_pairs(outcomes: Seq<FetchOutcome>) -> Seq<SymbolValue>
    decreases outcomes.len(),
{
    if outcomes.len() == 0 {
        Seq::empty()
    } else {
        committed_pairs(outcomes.drop_last()) + match outcomes.last() {
            Ok(pairs) => pairs@,
            Err(_) => Seq::empty(),
        }
    }
}

/// The table `m` after upserting each of `pairs` in order, all observed at `at`.
pub open spec fn apply_pairs(
    m: Map<Seq<char>, (Decimal, Seq<char>)>,
    pairs: Seq<SymbolValue>,
    at: Seq<char>,
) -> Map<Seq<char>, (Decimal, Seq<char>)>
    decreases pairs.len(),
{
    if pairs.len() == 0 {
        m
    } else {
        apply_pairs(m, pairs.drop_last(), at).insert(pairs.last().symbol@, (pairs.last().value, at))
    }
}

/// The outcome of a cycle whose providers returned `outcomes`.
pub open spec fn refresh_result(outcomes: Seq<FetchOutcome>) -> Result<
    Seq<SymbolValue>,
    OrchestratorError,
> {
    if committed_pairs(outcomes).len() > 0 {
        Ok(committed_pairs(outcomes))
    } else {
        Err(OrchestratorError::NoSourcesUpdated)
    }
}

pub open spec fn signal_of<T>(result: Result<T, OrchestratorError>) -> RefreshSignal {
    match result {
        Ok(_) => RefreshSignal::RefreshCompleted,
        Err(_) => RefreshSignal::RefreshFailed,
    }
}

proof fn lemma_apply_push(
    m: Map<Seq<char>, (Decimal, Seq<char>)>,
    pairs: Seq<SymbolValue>,
    p: SymbolValue,
    at: Seq<char>,
)
    ensures
        apply_pairs(m, pairs.push(p), at) == apply_pairs(m, pairs, at).insert(
            p.symbol@,
            (p.value, at),
        ),
{
    assert(pairs.push(p).drop_last() =~= pairs);
}

/// Upserts into `store`, observed at `observed_at`, every value that the
/// successful outcomes carry, in order. The result holds those values, or
/// says that there were none; then the store is as it was.
pub fn commit_refresh(store: &mut RateStore, outcomes: &Vec<FetchOutcome>, observed_at: &String) -> (r:
    Result<Vec<SymbolValue>, OrchestratorError>)
    requires
        old(store).wf(),
    ensures
        final(store).wf(),
        final(store)@ == apply_pairs(old(store)@, committed_pairs(outcomes@), observed_at@),
        match r {
            Ok(v) => refresh_result(outcomes@) == Ok::<_, OrchestratorError>(v@),
            Err(e) => refresh_result(outcomes@) == Err::<Seq<SymbolValue>, _>(e),
        },
        r is Err ==> final(store)@ == old(store)@,
{
    let ghost m0 = store@;
    let mut committed: Vec<SymbolValue> = Vec::new();
    let mut i: usize = 0;
    while i < outcomes.len()
        invariant
            store.wf(),
            i <= outcomes@.len(),
            committed@ == committed_pairs(outcomes@.subrange(0, i as int)),
            store@ == apply_pairs(m0, committed@, observed_at@),
        decreases outcomes@.len() - i,
    {
        assert(outcomes@.subrange(0, i as int + 1).drop_last() =~= outcomes@.subrange(0, i as int));
        match &outcomes[i] {
            Ok(pairs) => {
                let ghost base = committed@;
                let mut j: usize = 0;
                while j < pairs.len()
                    invariant
                        store.wf(),
                        j <= pairs@.len(),
                        committed@ == base + pairs@.subrange(0, j as int),
                        store@ == apply_pairs(m0, committed@, observed_at@),
                    decreases pairs@.len() - j,
                {
                    let p = &pairs[j];
                    store.upsert(p.symbol.clone(), p.value, observed_at.clone());
                    let ghost before = committed@;
                    committed.push(SymbolValue { symbol: p.symbol.clone(), value: p.value });
                    proof {
                        lemma_apply_push(m0, before, committed@.last(), observed_at@);
                        assert(committed@.drop_last() =~= before);
                        assert(committed@ =~= base + pairs@.subrange(0, j as int + 1));
                    }
                    j = j + 1;
                }
                assert(pairs@.subrange(0, pairs@.len() as int) =~= pairs@);
            },
            Err(_) => {
                assert(committed@ =~= committed@ + Seq::<SymbolValue>::empty());
            },
        }
        i = i + 1;
    }
    assert(outcomes@.subrange(0, outcomes@.len() as int) =~= outcomes@);
    if committed.len() == 0 {
        Err(OrchestratorError::NoSourcesUpdated)
    } else {
        Ok(committed)
    }
}

/// The signal that ends a cycle with `result`.
pub fn signal_for(result: &Result<Vec<SymbolValue>, OrchestratorError>) -> (r: RefreshSignal)
    ensures
        r == signal_of(*result),
{
    match result {
        Ok(_) => RefreshSignal::RefreshCompleted,
        Err(_) => RefreshSignal::RefreshFailed,
    }
}

/// Some pair of `pairs` is for `symbol`.
pub open spec fn has_symbol(pairs: Seq<SymbolValue>, symbol: Seq<char>) -> bool {
    exists|i: int| 0 <= i < pairs.len() && (#[trigger] pairs[i]).symbol@ == symbol
}

/// The tables `a` and `b` hold the same entry, or none, for `symbol`.
pub open spec fn same_entry(
    a: Map<Seq<char>, (Decimal, Seq<char>)>,
    b: Map<Seq<char>, (Decimal, Seq<char>)>,
    symbol: Seq<char>,
) -> bool {
    &&& a.contains_key(symbol) == b.contains_key(symbol)
    &&& b.contains_key(symbol) ==> a[symbol] == b[symbol]
}

proof fn lemma_single_success(outcomes: Seq<FetchOutcome>, k: int, pairs: Vec<SymbolValue>)
    requires
        0 <= k < outcomes.len(),
        outcomes[k] == Ok::<Vec<SymbolValue>, FetchError>(pairs),
        forall|j: int| 0 <= j < outcomes.len() && j != k ==> (#[trigger] outcomes[j]) is Err,
    ensures
        committed_pairs(outcomes) == pairs@,
    decreases outcomes.len(),
{
    let p = outcomes.drop_last();
    if k < outcomes.len() - 1 {
        assert forall|j: int| 0 <= j < p.len() && j != k implies (#[trigger] p[j]) is Err by {
            assert(p[j] == outcomes[j]);
        }
        lemma_single_success(p, k, pairs);
        assert(outcomes.last() is Err);
        assert(committed_pairs(outcomes) =~= pairs@);
    } else {
        lemma_all_failed(p);
        assert(committed_pairs(outcomes) =~= pairs@);
    }
}

proof fn lemma_all_failed(outcomes: Seq<FetchOutcome>)
    requires
        forall|j: int| 0 <= j < outcomes.len() ==> (#[trigger] outcomes[j]) is Err,
    ensures
        committed_pairs(outcomes) == Seq::<SymbolValue>::empty(),
    decreases outcomes.len(),
{
    if outcomes.len() > 0 {
        let p = outcomes.drop_last();
        assert forall|j: int| 0 <= j < p.len() implies (#[trigger] p[j]) is Err by {
            assert(p[j] == outcomes[j]);
        }
        lemma_all_failed(p);
        assert(outcomes[outcomes.len() - 1] is Err);
        assert(committed_pairs(outcomes) =~= Seq::<SymbolValue>::empty());
    }
}

proof fn lemma_apply_untouched(
    m: Map<Seq<char>, (Decimal, Seq<char>)>,
    pairs: Seq<SymbolValue>,
    at: Seq<char>,
    symbol: Seq<char>,
)
    requires
        forall|i: int| 0 <= i < pairs.len() ==> (#[trigger] pairs[i]).symbol@ != symbol,
    ensures
        apply_pairs(m, pairs, at).contains_key(symbol) == m.contains_key(symbol),
        m.contains_key(symbol) ==> apply_pairs(m, pairs, at)[symbol] == m[symbol],
    decreases pairs.len(),
{
    if pairs.len() > 0 {
        let p = pairs.drop_last();
        assert forall|i: int| 0 <= i < p.len() implies (#[trigger] p[i]).symbol@ != symbol by {
            assert(p[i] == pairs[i]);
        }
        assert(pairs[pairs.len() - 1].symbol@ != symbol);
        lemma_apply_untouched(m, p, at, symbol);
    }
}

proof fn lemma_apply_touched(
    m: Map<Seq<char>, (Decimal, Seq<char>)>,
    pairs: Seq<SymbolValue>,
    at: Seq<char>,
    i: int,
)
    requires
        0 <= i < pairs.len(),
    ensures
        apply_pairs(m, pairs, at).contains_key(pairs[i].symbol@),
        apply_pairs(m, pairs, at)[pairs[i].symbol@].1 == at,
    decreases pairs.len(),
{
    let p = pairs.drop_last();
    if i < pairs.len() - 1 && pairs.last().symbol@ != pairs[i].symbol@ {
        assert(p[i] == pairs[i]);
        lemma_apply_touched(m, p, at, i);
    }
}

/// A cycle in which exactly one provider returns values and every other one
/// fails ends in success with those values; it upserts each of that
/// provider's symbols, observed at the cycle's time, and leaves every other
/// symbol as it was.
pub proof fn law_one_provider_succeeds(
    outcomes: Seq<FetchOutcome>,
    k: int,
    pairs: Vec<SymbolValue>,
    before: Map<Seq<char>, (Decimal, Seq<char>)>,
    at: Seq<char>,
)
    requires
        0 <= k < outcomes.len(),
        outcomes[k] == Ok::<Vec<SymbolValue>, FetchError>(pairs),
        pairs@.len() > 0,
        forall|j: int| 0 <= j < outcomes.len() && j != k ==> (#[trigger] outcomes[j]) is Err,
    ensures
        refresh_result(outcomes) == Ok::<_, OrchestratorError>(pairs@),
        signal_of(refresh_result(outcomes)) == RefreshSignal::RefreshCompleted,
        apply_pairs(before, committed_pairs(outcomes), at) == apply_pairs(before, pairs@, at),
        forall|i: int|
            0 <= i < pairs@.len() ==> apply_pairs(before, pairs@, at).contains_key(
                (#[trigger] pairs@[i]).symbol@,
            ) && apply_pairs(before, pairs@, at)[pairs@[i].symbol@].1 == at,
        forall|symbol: Seq<char>|
            !has_symbol(pairs@, symbol) ==> #[trigger] same_entry(
                apply_pairs(before, pairs@, at),
                before,
                symbol,
            ),
{
    lemma_single_success(outcomes, k, pairs);
    assert forall|i: int| 0 <= i < pairs@.len() implies apply_pairs(before, pairs@, at).contains_key(
        (#[trigger] pairs@[i]).symbol@,
    ) && apply_pairs(before, pairs@, at)[pairs@[i].symbol@].1 == at by {
        lemma_apply_touched(before, pairs@, at, i);
    }
    assert forall|symbol: Seq<char>| !has_symbol(pairs@, symbol) implies #[trigger] same_entry(
        apply_pairs(before, pairs@, at),
        before,
        symbol,
    ) by {
        lemma_apply_untouched(before, pairs@, at, symbol);
    }
}

/// A cycle in which every provider fails ends in the error, signals the
/// failure, and leaves the store as it was.
pub proof fn law_all_providers_fail(
    outcomes: Seq<FetchOutcome>,
    before: Map<Seq<char>, (Decimal, Seq<char>)>,
    at: Seq<char>,
)
    requires
        forall|j: int| 0 <= j < outcomes.len() ==> (#[trigger] outcomes[j]) is Err,
    ensures
        refresh_result(outcomes) == Err::<Seq<SymbolValue>, _>(OrchestratorError::NoSourcesUpdated),
        signal_of(refresh_result(outcomes)) == RefreshSignal::RefreshFailed,
        apply_pairs(before, committed_pairs(outcomes), at) == before,
{
    lemma_all_failed(outcomes);
}

} // verus!
