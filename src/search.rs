//! The shared state of a search: a found flag and an attempt counter, with
//! each worker's own count, and the wallets that the search yields.
use vstd::prelude::*;
use crate::address::{address_of, address_of_secret, is_address_text};
use crate::keys::{is_valid_secret, sample_secret_key, SecretKey};
use crate::matcher::{pattern_matches, SearchPattern};

verus! {

/// A key together with the address it controls.
pub struct Wallet {
    secret: SecretKey,
    address: String,
}

impl Wallet {
    pub closed spec fn secret_view(&self) -> Seq<u8> {
        self.secret@
    }

    pub closed spec fn address_view(&self) -> Seq<char> {
        self.address@
    }

    /// The wallet of a key: its address is derived from it.
    pub fn from_secret(secret: SecretKey) -> (r: Wallet)
        ensures
            r.secret_view() == secret@,
            r.address_view() == address_of_secret(secret@),
            is_address_text(r.address_view()),
    {
        let address = address_of(&secret);
        Wallet { secret, address }
    }

    pub fn secret(&self) -> (r: &SecretKey)
        ensures
            r@ == self.secret_view(),
    {
        &self.secret
    }

    pub fn address(&self) -> (r: &str)
        ensures
            r@ == self.address_view(),
    {
        self.address.as_str()
    }

    /// Whether the wallet's address passes a pattern.
    pub fn matches(&self, pattern: &SearchPattern) -> (r: bool)
        ensures
            r == pattern_matches(self.address_view(), pattern.prefix_view(), pattern.suffix_view()),
    {
        pattern.matches(self.address.as_str())
    }
}

/// One wallet from one sampled key, derived once; `None` only when every
/// one of `max_draws` random draws was rejected as a scalar.
pub fn generate_wallet(max_draws: u32) -> (r: Option<Wallet>)
    ensures
        max_draws == 0 ==> r is None,
        r matches Some(w) ==> {
            &&& is_valid_secret(w.secret_view())
            &&& w.address_view() == address_of_secret(w.secret_view())
            &&& is_address_text(w.address_view())
        },
{
    match sample_secret_key(max_draws) {
        Some(k) => Some(Wallet::from_secret(k)),
        None => None,
    }
}

/// A worker's round before it touches the shared state: samples a key,
/// derives its wallet and tests the address against the pattern. `None` only
/// when every one of `max_draws` random draws was rejected as a scalar.
pub fn next_candidate(pattern: &SearchPattern, max_draws: u32) -> (r: Option<(Wallet, bool)>)
    ensures
        max_draws == 0 ==> r is None,
        r matches Some((w, matched)) ==> {
            &&& is_valid_secret(w.secret_view())
            &&& w.address_view() == address_of_secret(w.secret_view())
            &&& matched == pattern_matches(w.address_view(), pattern.prefix_view(), pattern.suffix_view())
        },
{
    match generate_wallet(max_draws) {
        Some(w) => {
            let matched = w.matches(pattern);
            Some((w, matched))
        },
        None => None,
    }
}

/// The sum of the counts.
pub open spec fn total(counts: Seq<int>) -> int
    decreases counts.len(),
{
    if counts.len() == 0 {
        0
    } else {
        total(counts.drop_last()) + counts.last()
    }
}

/// The search state in mathematical terms.
pub struct SearchModel {
    pub found: bool,
    pub attempts: int,
    pub per_worker: Seq<int>,
}

/// A state that a search can be in: the counter is the sum of the workers'
/// own counts, none of them negative.
pub open spec fn model_wf(s: SearchModel) -> bool {
    &&& s.attempts == total(s.per_worker)
    &&& forall|i: int| 0 <= i < s.per_worker.len() ==> s.per_worker[i] >= 0
}

/// One round of a worker that has tested a key: once the flag is set the
/// worker stops and counts nothing; else it counts its attempt and, on a
/// match, sets the flag and wins.
pub open spec fn step_model(s: SearchModel, worker: int, matched: bool) -> (SearchModel, bool) {
    if s.found {
        (s, false)
    } else {
        (
            SearchModel {
                found: matched,
                attempts: s.attempts + 1,
                per_worker: s.per_worker.update(worker, s.per_worker[worker] + 1),
            },
            matched,
        )
    }
}

/// The state after a sequence of rounds, each a worker and whether its key
/// matched, and the number of rounds that won.
pub open spec fn run_model(s: SearchModel, rounds: Seq<(int, bool)>) -> (SearchModel, nat)
    decreases rounds.len(),
{
    if rounds.len() == 0 {
        (s, 0)
    } else {
        let (prev, wins) = run_model(s, rounds.drop_last());
        let (next, won) = step_model(prev, rounds.last().0, rounds.last().1);
        (next, if won { wins + 1 } else { wins })
    }
}

/// Whether some round of the sequence matched.
pub open spec fn some_match(rounds: Seq<(int, bool)>) -> bool {
    exists|i: int| 0 <= i < rounds.len() && #[trigger] rounds[i].1
}

proof fn lemma_total_bump(counts: Seq<int>, i: int)
    requires
        0 <= i < counts.len(),
    ensures
        total(counts.update(i, counts[i] + 1)) == total(counts) + 1,
    decreases counts.len(),
{
    let u = counts.update(i, counts[i] + 1);
    if i == counts.len() - 1 {
        assert(u.drop_last() =~= counts.drop_last());
    } else {
        assert(u.drop_last() =~= counts.drop_last().update(i, counts[i] + 1));
        lemma_total_bump(counts.drop_last(), i);
    }
}

proof fn lemma_total_bounds_each(counts: Seq<int>, i: int)
    requires
        0 <= i < counts.len(),
        forall|j: int| 0 <= j < counts.len() ==> counts[j] >= 0,
    ensures
        counts[i] <= total(counts),
        total(counts) >= 0,
    decreases counts.len(),
{
    let d = counts.drop_last();
    assert forall|j: int| 0 <= j < d.len() implies d[j] >= 0 by {
        assert(d[j] == counts[j]);
    }
    if d.len() > 0 {
        lemma_total_bounds_each(d, if i < d.len() { i } else { 0 });
    }
    assert(total(counts) == total(d) + counts.last());
}

/// A round keeps the state well formed.
pub proof fn lemma_step_keeps_wf(s: SearchModel, worker: int, matched: bool)
    requires
        model_wf(s),
        0 <= worker < s.per_worker.len(),
    ensures
        model_wf(step_model(s, worker, matched).0),
{
    if !s.found {
        lemma_total_bump(s.per_worker, worker);
    }
}

/// When a round wins, the counter it reports is at least one and at least
/// the count of every single worker.
pub proof fn lemma_report_bounds(s: SearchModel, worker: int, matched: bool)
    requires
        model_wf(s),
        0 <= worker < s.per_worker.len(),
        step_model(s, worker, matched).1,
    ensures
        ({
            let next = step_model(s, worker, matched).0;
            &&& next.attempts >= 1
            &&& forall|i: int| 0 <= i < next.per_worker.len() ==> next.per_worker[i] <= next.attempts
        }),
{
    let next = step_model(s, worker, matched).0;
    lemma_step_keeps_wf(s, worker, matched);
    lemma_total_bounds_each(next.per_worker, worker);
    assert forall|i: int| 0 <= i < next.per_worker.len() implies next.per_worker[i] <= next.attempts by {
        lemma_total_bounds_each(next.per_worker, i);
    }
}

/// Over any sequence of rounds the counter never goes down, the flag never
/// goes back.
pub proof fn lemma_attempts_monotone(s: SearchModel, rounds: Seq<(int, bool)>)
    ensures
        run_model(s, rounds).0.attempts >= s.attempts,
        s.found ==> run_model(s, rounds).0.found,
    decreases rounds.len(),
{
    if rounds.len() > 0 {
        lemma_attempts_monotone(s, rounds.drop_last());
    }
}

/// From a state where nothing is found, any sequence of rounds has exactly
/// one winner if some round matched and none otherwise, and the flag is set
/// exactly when there was a winner.
pub proof fn lemma_single_winner(s: SearchModel, rounds: Seq<(int, bool)>)
    requires
        !s.found,
    ensures
        run_model(s, rounds).1 <= 1,
        run_model(s, rounds).1 == 1 <==> some_match(rounds),
        run_model(s, rounds).0.found <==> some_match(rounds),
    decreases rounds.len(),
{
    if rounds.len() > 0 {
        let init = rounds.drop_last();
        lemma_single_winner(s, init);
        if some_match(init) {
            let i = choose|i: int| 0 <= i < init.len() && #[trigger] init[i].1;
            assert(rounds[i].1);
        }
        if some_match(rounds) && !rounds.last().1 {
            let i = choose|i: int| 0 <= i < rounds.len() && #[trigger] rounds[i].1;
            assert(init[i].1);
        }
    }
}

/// What a worker's round came to.
pub enum Step {
    /// The flag was already set: the worker stops, and its key is not counted.
    Stopped,
    /// The key was counted and did not match.
    Missed,
    /// The key was counted, matched, and set the flag; `attempts` is the
    /// counter after this key.
    Won { attempts: u64 },
}

/// The state that the workers of a search share.
pub struct SearchState {
    found: bool,
    attempts: u64,
    per_worker: Vec<u64>,
}

impl View for SearchState {
    type V = SearchModel;

    closed spec fn view(&self) -> SearchModel {
        SearchModel {
            found: self.found,
            attempts: self.attempts as int,
            per_worker: self.per_worker@.map_values(|c: u64| c as int),
        }
    }
}

impl SearchState {
    pub open spec fn wf(&self) -> bool {
        model_wf(self@)
    }

    /// The state at the start of a search with `workers` workers: nothing
    /// found, nothing counted.
    pub fn new(workers: usize) -> (r: SearchState)
        ensures
            r.wf(),
            !r@.found,
            r@.attempts == 0,
            r@.per_worker == Seq::new(workers as nat, |i: int| 0int),
    {
        let mut per_worker: Vec<u64> = Vec::new();
        let mut i: usize = 0;
        while i < workers
            invariant
                i <= workers,
                per_worker@.len() == i,
                forall|j: int| 0 <= j < i ==> per_worker@[j] == 0,
            decreases workers - i,
        {
            per_worker.push(0);
            i = i + 1;
        }
        let r = SearchState { found: false, attempts: 0, per_worker };
        assert(r@.per_worker =~= Seq::new(workers as nat, |i: int| 0int));
        proof {
            lemma_total_zero(r@.per_worker);
        }
        r
    }

    /// Whether a match has been accepted.
    pub fn is_found(&self) -> (r: bool)
        ensures
            r == self@.found,
    {
        self.found
    }

    /// The keys counted so far, over all workers.
    pub fn attempts(&self) -> (r: u64)
        ensures
            r == self@.attempts,
    {
        self.attempts
    }

    /// The number of workers.
    pub fn workers(&self) -> (r: usize)
        ensures
            r == self@.per_worker.len(),
    {
        self.per_worker.len()
    }

    /// The keys that one worker has counted.
    pub fn worker_attempts(&self, worker: usize) -> (r: u64)
        requires
            worker < self@.per_worker.len(),
        ensures
            r == self@.per_worker[worker as int],
    {
        self.per_worker[worker]
    }

    /// Records a round of `worker`, whose key did or did not match: counts
    /// it, and claims the flag on a match, unless the flag is already set.
    pub fn worker_step(&mut self, worker: usize, matched: bool) -> (r: Step)
        requires
            old(self).wf(),
            worker < old(self)@.per_worker.len(),
            old(self)@.attempts < u64::MAX,
        ensures
            final(self).wf(),
            final(self)@ == step_model(old(self)@, worker as int, matched).0,
            r is Won == step_model(old(self)@, worker as int, matched).1,
            r is Stopped == old(self)@.found,
            r matches Step::Won { attempts } ==> {
                &&& attempts == final(self)@.attempts
                &&& attempts >= 1
                &&& forall|i: int| 0 <= i < final(self)@.per_worker.len()
                    ==> final(self)@.per_worker[i] <= attempts
            },
    {
        proof {
            lemma_step_keeps_wf(self@, worker as int, matched);
            lemma_total_bounds_each(self@.per_worker, worker as int);
        }
        if self.found {
            return Step::Stopped;
        }
        let ghost before = self@;
        let mine = self.per_worker[worker];
        self.per_worker.set(worker, mine + 1);
        self.attempts = self.attempts + 1;
        assert(self@.per_worker =~= before.per_worker.update(worker as int, before.per_worker[worker as int] + 1));
        if matched {
            self.found = true;
            proof {
                lemma_report_bounds(before, worker as int, matched);
            }
            Step::Won { attempts: self.attempts }
        } else {
            Step::Missed
        }
    }
}

proof fn lemma_total_zero(counts: Seq<int>)
    requires
        forall|j: int| 0 <= j < counts.len() ==> counts[j] == 0,
    ensures
        total(counts) == 0,
    decreases counts.len(),
{
    if counts.len() > 0 {
        lemma_total_zero(counts.drop_last());
    }
}

} // verus!
