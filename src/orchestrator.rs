//! The decisions of a download run: how a response is handled, and which
//! locators are fetched again or reported as failed once a batch is done. The
//! fetching, the waiting between batches and the writing of files are the
//! caller's.
use vstd::prelude::*;

verus! {

/// What to do with one response.
#[derive(Clone, Copy, Debug, PartialEq, Eq, Structural)]
pub enum Disposition {
    /// Decode the body and store its records.
    Decode,
    /// The provider holds no data for this hour: nothing to store, nothing to retry.
    NoData,
    /// Fetch again in the next batch.
    Retry,
}

/// How a response is handled: `status` is `None` where the request failed
/// before any status came back.
pub open spec fn disposition_of(status: Option<u16>, body_len: u64) -> Disposition {
    match status {
        None => Disposition::Retry,
        Some(code) => if code == 200 {
            if body_len > 0 {
                Disposition::Decode
            } else {
                Disposition::NoData
            }
        } else if code == 404 {
            Disposition::NoData
        } else {
            Disposition::Retry
        },
    }
}

pub fn classify(status: Option<u16>, body_len: u64) -> (r: Disposition)
    ensures
        r == disposition_of(status, body_len),
{
    match status {
        None => Disposition::Retry,
        Some(code) => {
            if code == 200 {
                if body_len > 0 {
                    Disposition::Decode
                } else {
                    Disposition::NoData
                }
            } else if code == 404 {
                Disposition::NoData
            } else {
                Disposition::Retry
            }
        },
    }
}

/// How the handling of one locator in a batch ended.
#[derive(Clone, Copy, Debug, PartialEq, Eq, Structural)]
pub enum Outcome {
    /// Records were decoded and stored.
    Stored,
    /// The provider holds no data for this hour.
    NoData,
    /// A failure that another attempt may not meet: fetch again.
    Transient,
    /// The payload could not be decoded or stored: reported, not fetched again.
    Corrupt,
}

/// The locators of `urls` whose outcome is `o`, in order.
pub open spec fn with_outcome(urls: Seq<String>, outs: Seq<Outcome>, o: Outcome) -> Seq<String>
    decreases urls.len(),
{
    if urls.len() == 0 {
        Seq::empty()
    } else {
        let k = urls.len() - 1;
        let rest = with_outcome(urls.subrange(0, k), outs, o);
        if outs[k] == o {
            rest.push(urls[k])
        } else {
            rest
        }
    }
}

/// A locator is kept for outcome `o` exactly where one of its positions in the
/// batch ended with `o`.
pub proof fn lemma_with_outcome_contains(urls: Seq<String>, outs: Seq<Outcome>, o: Outcome, u: String)
    requires
        outs.len() == urls.len(),
    ensures
        with_outcome(urls, outs, o).contains(u) <==> exists|i: int|
            0 <= i < urls.len() && urls[i] == u && outs[i] == o,
    decreases urls.len(),
{
    if urls.len() > 0 {
        let k = urls.len() - 1;
        let pre = urls.subrange(0, k);
        let rest = with_outcome(pre, outs, o);
        lemma_with_outcome_contains(pre, outs.subrange(0, k), o, u);
        lemma_with_outcome_prefix(pre, outs, o);
        if with_outcome(urls, outs, o).contains(u) {
            if rest.contains(u) {
                let i = choose|i: int| 0 <= i < pre.len() && pre[i] == u && outs.subrange(0, k)[i] == o;
                assert(urls[i] == u && outs[i] == o);
            } else {
                let j = choose|j: int| 0 <= j < with_outcome(urls, outs, o).len() && with_outcome(urls, outs, o)[j] == u;
                assert(with_outcome(urls, outs, o) == rest.push(urls[k]));
                assert(urls[k] == u && outs[k] == o);
            }
        }
        if exists|i: int| 0 <= i < urls.len() && urls[i] == u && outs[i] == o {
            let i = choose|i: int| 0 <= i < urls.len() && urls[i] == u && outs[i] == o;
            if i < k {
                assert(pre[i] == u && outs.subrange(0, k)[i] == o);
                assert(rest.contains(u));
                if outs[k] == o {
                    let j = choose|j: int| 0 <= j < rest.len() && rest[j] == u;
                    assert(rest.push(urls[k])[j] == u);
                }
            } else {
                assert(with_outcome(urls, outs, o) == rest.push(u));
                assert(rest.push(u)[rest.len() as int] == u);
            }
        }
    }
}

/// Only the outcomes of a prefix of the batch matter for that prefix.
proof fn lemma_with_outcome_prefix(urls: Seq<String>, outs: Seq<Outcome>, o: Outcome)
    requires
        urls.len() <= outs.len(),
    ensures
        with_outcome(urls, outs, o) == with_outcome(urls, outs.subrange(0, urls.len() as int), o),
    decreases urls.len(),
{
    if urls.len() > 0 {
        let k = urls.len() - 1;
        lemma_with_outcome_prefix(urls.subrange(0, k), outs, o);
        lemma_with_outcome_prefix(urls.subrange(0, k), outs.subrange(0, urls.len() as int), o);
        assert(outs.subrange(0, urls.len() as int).subrange(0, k) =~= outs.subrange(0, k));
    }
}

/// The bookkeeping of a run: the locators of the next batch, those reported
/// as failed, and how many more batches may follow the current one.
pub struct RetryState {
    pub pending: Seq<String>,
    pub failed: Seq<String>,
    pub retries_left: int,
}

/// The state after a batch whose locators ended with `outs`: corrupt payloads
/// are reported; transient failures form the next batch while retries remain,
/// and are reported once they are spent.
pub open spec fn next_state(s: RetryState, outs: Seq<Outcome>) -> RetryState {
    let again = with_outcome(s.pending, outs, Outcome::Transient);
    let corrupt = with_outcome(s.pending, outs, Outcome::Corrupt);
    if again.len() == 0 {
        RetryState { pending: Seq::empty(), failed: s.failed + corrupt, retries_left: s.retries_left }
    } else if s.retries_left > 0 {
        RetryState { pending: again, failed: s.failed + corrupt, retries_left: s.retries_left - 1 }
    } else {
        RetryState { pending: Seq::empty(), failed: s.failed + corrupt + again, retries_left: 0 }
    }
}

/// A locator that had not failed before, and whose every position in the batch
/// ended stored or without data, is neither fetched again nor reported as
/// failed: no-data answers are never retried and never reported.
pub proof fn lemma_settled_never_failed(s: RetryState, outs: Seq<Outcome>, u: String)
    requires
        outs.len() == s.pending.len(),
        !s.failed.contains(u),
        forall|i: int|
            0 <= i < s.pending.len() && s.pending[i] == u ==> outs[i] == Outcome::Stored || outs[i]
                == Outcome::NoData,
    ensures
        !next_state(s, outs).failed.contains(u),
        !next_state(s, outs).pending.contains(u),
{
    broadcast use vstd::seq_lib::lemma_seq_concat_contains_all_elements;

    lemma_with_outcome_contains(s.pending, outs, Outcome::Transient, u);
    lemma_with_outcome_contains(s.pending, outs, Outcome::Corrupt, u);
}

/// Every locator reported as failed after a batch had failed before, or ended
/// this batch with a corrupt payload, or with a transient failure when no
/// retries were left.
pub proof fn lemma_failed_only_after_failure(s: RetryState, outs: Seq<Outcome>, u: String)
    requires
        outs.len() == s.pending.len(),
        next_state(s, outs).failed.contains(u),
    ensures
        s.failed.contains(u) || exists|i: int|
            0 <= i < s.pending.len() && s.pending[i] == u && (outs[i] == Outcome::Corrupt || (
            outs[i] == Outcome::Transient && s.retries_left <= 0)),
{
    broadcast use vstd::seq_lib::lemma_seq_concat_contains_all_elements;

    lemma_with_outcome_contains(s.pending, outs, Outcome::Transient, u);
    lemma_with_outcome_contains(s.pending, outs, Outcome::Corrupt, u);
}

/// Whether a locator is fetched again or reported as failed depends on its own
/// outcomes alone: two batches whose outcomes agree on its positions treat it
/// alike, whatever became of the other locators.
pub proof fn lemma_outcome_is_local(s: RetryState, outs1: Seq<Outcome>, outs2: Seq<Outcome>, u: String)
    requires
        outs1.len() == s.pending.len(),
        outs2.len() == s.pending.len(),
        forall|i: int| 0 <= i < s.pending.len() && s.pending[i] == u ==> outs1[i] == outs2[i],
    ensures
        next_state(s, outs1).failed.contains(u) <==> next_state(s, outs2).failed.contains(u),
        next_state(s, outs1).pending.contains(u) <==> next_state(s, outs2).pending.contains(u),
{
    broadcast use vstd::seq_lib::lemma_seq_concat_contains_all_elements;

    lemma_with_outcome_contains(s.pending, outs1, Outcome::Transient, u);
    lemma_with_outcome_contains(s.pending, outs1, Outcome::Corrupt, u);
    lemma_with_outcome_contains(s.pending, outs2, Outcome::Transient, u);
    lemma_with_outcome_contains(s.pending, outs2, Outcome::Corrupt, u);
    let a1 = with_outcome(s.pending, outs1, Outcome::Transient);
    let a2 = with_outcome(s.pending, outs2, Outcome::Transient);
    if a1.contains(u) {
        assert(a2.contains(u));
        assert(a2.len() > 0);
        assert(a1.len() > 0);
    }
    if a2.contains(u) {
        assert(a1.contains(u));
        assert(a1.len() > 0);
        assert(a2.len() > 0);
    }
}

/// Each batch's outcomes cover that batch's locators, position by position.
pub open spec fn rounds_fit(s: RetryState, rounds: Seq<Seq<Outcome>>) -> bool
    decreases rounds.len(),
{
    rounds.len() == 0 || (rounds[0].len() == s.pending.len() && rounds_fit(
        next_state(s, rounds[0]),
        rounds.drop_first(),
    ))
}

/// The state after the batches whose outcomes are `rounds`, in turn.
pub open spec fn after_rounds(s: RetryState, rounds: Seq<Seq<Outcome>>) -> RetryState
    decreases rounds.len(),
{
    if rounds.len() == 0 {
        s
    } else {
        after_rounds(next_state(s, rounds[0]), rounds.drop_first())
    }
}

/// Over a whole run: a locator that had not failed, and whose every position in
/// the first batch ended stored or without data, is not among the failed ones
/// however the later batches end.
pub proof fn lemma_settled_stays_out_of_failed(
    s: RetryState,
    rounds: Seq<Seq<Outcome>>,
    u: String,
)
    requires
        rounds.len() > 0,
        rounds_fit(s, rounds),
        !s.failed.contains(u),
        forall|i: int|
            0 <= i < s.pending.len() && s.pending[i] == u ==> rounds[0][i] == Outcome::Stored
                || rounds[0][i] == Outcome::NoData,
    ensures
        !after_rounds(s, rounds).failed.contains(u),
        !after_rounds(s, rounds).pending.contains(u),
    decreases rounds.len(),
{
    lemma_settled_never_failed(s, rounds[0], u);
    let next = next_state(s, rounds[0]);
    let rest = rounds.drop_first();
    assert(after_rounds(s, rounds) == after_rounds(next, rest));
    if rest.len() == 0 {
        assert(after_rounds(next, rest) == next);
    } else {
        assert forall|i: int|
            0 <= i < next.pending.len() && next.pending[i] == u implies rest[0][i]
            == Outcome::Stored || rest[0][i] == Outcome::NoData by {
            assert(next.pending.contains(next.pending[i]));
        }
        lemma_settled_stays_out_of_failed(next, rest, u);
    }
}

/// The retry loop of one download run.
pub struct Retrier {
    pending: Vec<String>,
    failed: Vec<String>,
    retries_left: u16,
}

impl View for Retrier {
    type V = RetryState;

    closed spec fn view(&self) -> RetryState {
        RetryState {
            pending: self.pending@,
            failed: self.failed@,
            retries_left: self.retries_left as int,
        }
    }
}

impl Retrier {
    /// A run over `urls`, which may be fetched again up to `max_retries` times.
    pub fn new(urls: Vec<String>, max_retries: u16) -> (r: Retrier)
        ensures
            r@ == (RetryState { pending: urls@, failed: Seq::empty(), retries_left: max_retries as int }),
    {
        Retrier { pending: urls, failed: Vec::new(), retries_left: max_retries }
    }

    /// The locators to fetch in the current batch; none once the run is over.
    pub fn pending(&self) -> (r: &Vec<String>)
        ensures
            r@ == self@.pending,
    {
        &self.pending
    }

    /// The locators reported as failed so far; once the run is over, all of them.
    pub fn failed(&self) -> (r: &Vec<String>)
        ensures
            r@ == self@.failed,
    {
        &self.failed
    }

    pub fn retries_left(&self) -> (r: u16)
        ensures
            r == self@.retries_left,
    {
        self.retries_left
    }

    /// Takes the outcomes of the current batch, position by position, and
    /// moves to the next state. Returns whether another batch follows, which
    /// the caller fetches after the retry delay.
    pub fn settle(&mut self, outcomes: &Vec<Outcome>) -> (again: bool)
        requires
            outcomes@.len() == old(self)@.pending.len(),
        ensures
            final(self)@ == next_state(old(self)@, outcomes@),
            again == (final(self)@.pending.len() > 0),
            again ==> final(self)@.retries_left == old(self)@.retries_left - 1,
    {
        let n = self.pending.len();
        let mut retry: Vec<String> = Vec::new();
        let mut corrupt: Vec<String> = Vec::new();
        let mut i: usize = 0;
        while i < n
            invariant
                n == self.pending@.len(),
                n == outcomes@.len(),
                self@ == old(self)@,
                i <= n,
                retry@ == with_outcome(self.pending@.subrange(0, i as int), outcomes@, Outcome::Transient),
                corrupt@ == with_outcome(self.pending@.subrange(0, i as int), outcomes@, Outcome::Corrupt),
            decreases n - i,
        {
            assert(self.pending@.subrange(0, i + 1).subrange(0, i as int) =~= self.pending@.subrange(0, i as int));
            if outcomes[i] == Outcome::Transient {
                retry.push(self.pending[i].clone());
            } else if outcomes[i] == Outcome::Corrupt {
                corrupt.push(self.pending[i].clone());
            }
            i = i + 1;
        }
        assert(self.pending@.subrange(0, n as int) =~= self.pending@);
        self.failed.append(&mut corrupt);
        if retry.len() == 0 {
            self.pending = Vec::new();
            false
        } else if self.retries_left > 0 {
            self.pending = retry;
            self.retries_left = self.retries_left - 1;
            true
        } else {
            self.failed.append(&mut retry);
            self.pending = Vec::new();
            false
        }
    }
}

} // verus!
