//! The ordered fallback over the sources: which source to ask next, and when to stop.
//! The requests themselves are made by the caller, who hands each outcome back.
use vstd::prelude::*;
use crate::price::{price_of, Price};
use crate::json::{json_leaf_at, JsonLeaf};
use crate::source::{
    is_success, numeric_price, path_of, reply_outcome, Failure, FetchError, Reply, Source,
};

verus! {

/// How many sources there are to try.
pub const SOURCE_COUNT: usize = 3;

/// The source tried in the given turn: CoinGecko, then CoinCap, then Binance.
pub open spec fn source_at(i: nat) -> Source {
    if i == 0 {
        Source::CoinGecko
    } else if i == 1 {
        Source::CoinCap
    } else {
        Source::Binance
    }
}

/// Where a run stands.
#[derive(Clone, Copy, Debug, PartialEq, Eq)]
pub enum Phase {
    /// Some source is still to be asked.
    Running,
    /// A source gave this price; no further source is asked.
    Succeeded(Price),
    /// Every source failed.
    Exhausted,
}

/// The run's final failure: every source failed.
#[derive(Clone, Copy, Debug, PartialEq, Eq)]
pub struct Exhausted;

/// One run through the sources in their fixed order.
#[derive(Clone, Debug)]
pub struct Fallback {
    pub tried: usize,
    pub phase: Phase,
}

/// One turn: the phase and count of sources tried after the outcome of the next source.
pub open spec fn step(tried: nat, phase: Phase, outcome: Result<Price, FetchError>) -> (nat, Phase) {
    match phase {
        Phase::Running => (tried + 1, match outcome {
            Ok(p) => Phase::Succeeded(p),
            Err(_) => if tried + 1 >= SOURCE_COUNT {
                Phase::Exhausted
            } else {
                Phase::Running
            },
        }),
        _ => (tried, phase),
    }
}

/// The state after the given outcomes, offered one by one from a fresh run; an
/// outcome offered once the run is over changes nothing.
pub open spec fn run(outcomes: Seq<Result<Price, FetchError>>) -> (nat, Phase)
    decreases outcomes.len(),
{
    if outcomes.len() == 0 {
        (0, Phase::Running)
    } else {
        let (t, ph) = run(outcomes.drop_last());
        step(t, ph, outcomes.last())
    }
}

/// What a run has come to: nothing yet, a price, or the failure of every source.
pub open spec fn result_of(phase: Phase) -> Option<Result<Price, Exhausted>> {
    match phase {
        Phase::Running => None,
        Phase::Succeeded(p) => Some(Ok(p)),
        Phase::Exhausted => Some(Err(Exhausted)),
    }
}

pub open spec fn state_wf(tried: nat, phase: Phase) -> bool {
    &&& tried <= SOURCE_COUNT
    &&& phase is Running ==> tried < SOURCE_COUNT
    &&& phase is Exhausted ==> tried == SOURCE_COUNT
    &&& phase is Succeeded ==> tried >= 1
}

/// Every price that a run holds has the shape that `format_price` needs.
pub open spec fn prices_wf(phase: Phase) -> bool {
    phase matches Phase::Succeeded(p) ==> p.wf()
}

impl Fallback {
    pub open spec fn wf(&self) -> bool {
        state_wf(self.tried as nat, self.phase) && prices_wf(self.phase)
    }

    /// A run that has asked no source yet.
    pub fn new() -> (r: Fallback)
        ensures
            r.wf(),
            r.tried == 0,
            r.phase == Phase::Running,
    {
        Fallback { tried: 0, phase: Phase::Running }
    }

    /// The source to ask next, or `None` once the run is over.
    pub fn next_source(&self) -> (r: Option<Source>)
        requires
            self.wf(),
        ensures
            r == (if self.phase is Running {
                Some(source_at(self.tried as nat))
            } else {
                None::<Source>
            }),
    {
        match self.phase {
            Phase::Running => Some(
                if self.tried == 0 {
                    Source::CoinGecko
                } else if self.tried == 1 {
                    Source::CoinCap
                } else {
                    Source::Binance
                },
            ),
            _ => None,
        }
    }

    /// Takes the outcome of the source that `next_source` named: a price ends the
    /// run, a failure moves on to the next source or, after the last, ends it.
    pub fn record(&mut self, outcome: &Result<Price, FetchError>)
        requires
            old(self).wf(),
            old(self).phase is Running,
            *outcome matches Ok(p) ==> p.wf(),
        ensures
            final(self).wf(),
            (final(self).tried as nat, final(self).phase) == step(
                old(self).tried as nat,
                old(self).phase,
                *outcome,
            ),
    {
        self.tried = self.tried + 1;
        self.phase = match outcome {
            Ok(p) => Phase::Succeeded(*p),
            Err(_) => if self.tried >= SOURCE_COUNT {
                Phase::Exhausted
            } else {
                Phase::Running
            },
        };
    }

    /// What the run has come to.
    pub fn result(&self) -> (r: Option<Result<Price, Exhausted>>)
        requires
            self.wf(),
        ensures
            r == result_of(self.phase),
            r matches Some(Ok(p)) ==> p.wf(),
    {
        match self.phase {
            Phase::Running => None,
            Phase::Succeeded(p) => Some(Ok(p)),
            Phase::Exhausted => Some(Err(Exhausted)),
        }
    }
}

/// Every state that a run passes through is well formed.
pub proof fn lemma_run_wf(outcomes: Seq<Result<Price, FetchError>>)
    ensures
        state_wf(run(outcomes).0, run(outcomes).1),
    decreases outcomes.len(),
{
    if outcomes.len() > 0 {
        lemma_run_wf(outcomes.drop_last());
    }
}

/// The run ends with the price of the first source that succeeds, having asked
/// exactly the sources up to it, whatever the later ones would have said.
pub proof fn lemma_first_success_wins(outcomes: Seq<Result<Price, FetchError>>, j: int)
    requires
        0 <= j < outcomes.len(),
        j < SOURCE_COUNT,
        outcomes[j] is Ok,
        forall|i: int| 0 <= i < j ==> (#[trigger] outcomes[i]) is Err,
    ensures
        run(outcomes) == ((j + 1) as nat, Phase::Succeeded(outcomes[j]->Ok_0)),
        result_of(run(outcomes).1) == Some(Ok::<Price, Exhausted>(outcomes[j]->Ok_0)),
    decreases outcomes.len(),
{
    if outcomes.len() > j + 1 {
        let rest = outcomes.drop_last();
        assert(rest[j] == outcomes[j]);
        assert forall|i: int| 0 <= i < j implies (#[trigger] rest[i]) is Err by {
            assert(rest[i] == outcomes[i]);
        }
        lemma_first_success_wins(rest, j);
    } else {
        lemma_failures_keep_running(outcomes.drop_last());
    }
}

/// Failures alone, fewer than there are sources, leave the run going with as many
/// sources tried.
pub proof fn lemma_failures_keep_running(outcomes: Seq<Result<Price, FetchError>>)
    requires
        outcomes.len() < SOURCE_COUNT,
        forall|i: int| 0 <= i < outcomes.len() ==> (#[trigger] outcomes[i]) is Err,
    ensures
        run(outcomes) == (outcomes.len(), Phase::Running),
    decreases outcomes.len(),
{
    if outcomes.len() > 0 {
        let rest = outcomes.drop_last();
        assert forall|i: int| 0 <= i < rest.len() implies (#[trigger] rest[i]) is Err by {
            assert(rest[i] == outcomes[i]);
        }
        lemma_failures_keep_running(rest);
        assert(outcomes.last() == outcomes[outcomes.len() - 1]);
    }
}

/// When every source fails, the run ends in the failure of all, after asking each once.
pub proof fn lemma_all_failures_exhaust(outcomes: Seq<Result<Price, FetchError>>)
    requires
        outcomes.len() == SOURCE_COUNT,
        forall|i: int| 0 <= i < outcomes.len() ==> (#[trigger] outcomes[i]) is Err,
    ensures
        run(outcomes) == (SOURCE_COUNT as nat, Phase::Exhausted),
        result_of(run(outcomes).1) == Some(Err::<Price, Exhausted>(Exhausted)),
{
    let rest = outcomes.drop_last();
    assert forall|i: int| 0 <= i < rest.len() implies (#[trigger] rest[i]) is Err by {
        assert(rest[i] == outcomes[i]);
    }
    lemma_failures_keep_running(rest);
    assert(outcomes.last() == outcomes[outcomes.len() - 1]);
}

/// A price field that holds no decimal is a numeric-format failure of that source, and
/// the run goes on to the next source unless that was the last one.
pub proof fn lemma_malformed_price_falls_through(
    tried: nat,
    status: u16,
    body: String,
    t: String,
)
    requires
        tried < SOURCE_COUNT,
        is_success(status),
        json_leaf_at(body@, path_of(source_at(tried))) == Some(
            if numeric_price(source_at(tried)) {
                JsonLeaf::Number(t)
            } else {
                JsonLeaf::Text(t)
            },
        ),
        price_of(t@) is None,
    ensures
        reply_outcome(source_at(tried), Reply::Response { status, body }) == Err::<
            Price,
            Failure,
        >(Failure::NumericFormat(t)),
        step(
            tried,
            Phase::Running,
            Err(
                FetchError {
                    source: source_at(tried),
                    failure: Failure::NumericFormat(t),
                },
            ),
        ) == (tried + 1, if tried + 1 < SOURCE_COUNT {
            Phase::Running
        } else {
            Phase::Exhausted
        }),
{
}

} // verus!
