//! Decisions of the dispatch loop. The caller runs each batch on the device
//! and hands the result slot back; the search decides whether the batch
//! found a winner or advances its candidate by the batch's unit count.

use vstd::prelude::*;
use crate::buffers::{convert_fat_buf, input_words, is_hit, narrowed, result_is_hit, widened};
use crate::counter::{add_big_int, advanced, lemma_advance_associative, lemma_advanced_by_zero};
use crate::predicate::MAX_DIFFICULTY_BITS;

verus! {

/// Why a configuration is refused before any device work.
#[derive(Clone, Copy, Debug, PartialEq, Eq, Structural)]
pub enum ConfigError {
    /// The difficulty asks for more bits than a 32-byte hash has.
    DifficultyTooLarge,
    /// `dispatch_x * workgroup_size * iterations` does not fit in a `u32`.
    BatchTooLarge,
    /// The start candidate is not a string of hex digit pairs.
    InvalidStartHex,
    /// The start candidate is longer than 32 bytes.
    StartTooLong,
}

/// The run's configuration.
#[derive(Clone, Copy, Debug, PartialEq, Eq, Structural)]
pub struct SearchConfig {
    /// Work items per workgroup.
    pub workgroup_size: u32,
    /// Workgroups per dispatch.
    pub dispatch_x: u32,
    /// Candidates each work item hashes per dispatch.
    pub iterations: u32,
    /// Leading zero bits a winning hash must have.
    pub difficulty_bits: u32,
}

/// Candidates one dispatch covers.
pub open spec fn batch_units(c: SearchConfig) -> nat {
    c.dispatch_x as nat * c.workgroup_size as nat * c.iterations as nat
}

/// Which error, if any, a configuration is refused with.
pub open spec fn config_error(c: SearchConfig) -> Option<ConfigError> {
    if c.difficulty_bits > MAX_DIFFICULTY_BITS {
        Some(ConfigError::DifficultyTooLarge)
    } else if batch_units(c) > u32::MAX {
        Some(ConfigError::BatchTooLarge)
    } else {
        None
    }
}

/// The number of candidates one dispatch covers, refused when it does not
/// fit in a `u32`.
pub fn batch_size(config: &SearchConfig) -> (r: Result<u32, ConfigError>)
    ensures
        batch_units(*config) <= u32::MAX ==> r == Ok::<u32, ConfigError>(
            batch_units(*config) as u32,
        ),
        batch_units(*config) > u32::MAX ==> r == Err::<u32, ConfigError>(
            ConfigError::BatchTooLarge,
        ),
{
    let d = config.dispatch_x as u128;
    let w = config.workgroup_size as u128;
    let n = config.iterations as u128;
    assert(d * w <= u32::MAX as nat * u32::MAX as nat) by (nonlinear_arith)
        requires
            d <= u32::MAX,
            w <= u32::MAX,
    ;
    assert(d * w * n <= u32::MAX as nat * u32::MAX as nat * u32::MAX as nat) by (nonlinear_arith)
        requires
            d * w <= u32::MAX as nat * u32::MAX as nat,
            n <= u32::MAX,
    ;
    let units: u128 = d * w * n;
    if units > u32::MAX as u128 {
        Err(ConfigError::BatchTooLarge)
    } else {
        Ok(units as u32)
    }
}

/// Where the dispatch loop stands.
#[derive(Clone, Copy, Debug, PartialEq, Eq, Structural)]
pub enum Phase {
    /// No batch is out; the next one may start.
    Ready,
    /// A batch was handed to the device and its result slot is awaited.
    AwaitingResult,
    /// A batch reported a winner. Terminal.
    HitFound,
    /// The device failed. Terminal.
    Failed,
}

/// What the search knows: the candidate of the next batch, the batch size,
/// how many batches went by without a hit, where the loop stands, and the
/// winner once one is found.
pub ghost struct SearchView {
    pub candidate: Seq<u8>,
    pub batch_size: nat,
    pub batches: nat,
    pub phase: Phase,
    pub winner: Option<Seq<u8>>,
}

/// The search once a batch has been started: only a ready search starts
/// one, so at most one batch is out at a time.
pub open spec fn started(v: SearchView) -> SearchView {
    if v.phase == Phase::Ready {
        SearchView { phase: Phase::AwaitingResult, ..v }
    } else {
        v
    }
}

/// The search after the result slot of the batch it awaits. A search that
/// awaits no batch stays as it is; a hit records the winner and leaves the
/// candidate alone; a batch without a hit advances the candidate by the
/// batch size and makes the search ready again.
pub open spec fn next_view(v: SearchView, result: Seq<u32>) -> SearchView {
    if v.phase != Phase::AwaitingResult {
        v
    } else if is_hit(result) {
        SearchView { phase: Phase::HitFound, winner: Some(narrowed(result)), ..v }
    } else {
        SearchView {
            candidate: advanced(v.candidate, v.batch_size),
            batches: v.batches + 1,
            phase: Phase::Ready,
            ..v
        }
    }
}

/// The search after a device failure: terminal, unless a winner was
/// already found.
pub open spec fn failed(v: SearchView) -> SearchView {
    if v.phase == Phase::HitFound {
        v
    } else {
        SearchView { phase: Phase::Failed, ..v }
    }
}

/// One whole batch: started, then given its result slot.
pub open spec fn batch_view(v: SearchView, result: Seq<u32>) -> SearchView {
    next_view(started(v), result)
}

/// The search after a run of whole batches with these result slots, in
/// order.
pub open spec fn after_results(v: SearchView, results: Seq<Seq<u32>>) -> SearchView
    decreases results.len(),
{
    if results.len() == 0 {
        v
    } else {
        batch_view(after_results(v, results.drop_last()), results.last())
    }
}

/// After `k` batches without a hit the candidate is the start advanced by
/// `k` times the batch size, and no winner is known.
pub proof fn lemma_quiet_batches(v: SearchView, results: Seq<Seq<u32>>)
    requires
        v.phase == Phase::Ready,
        v.winner is None,
        forall|i: int| 0 <= i < results.len() ==> !#[trigger] is_hit(results[i]),
    ensures
        after_results(v, results).phase == Phase::Ready,
        after_results(v, results).candidate == advanced(
            v.candidate,
            results.len() * v.batch_size,
        ),
        after_results(v, results).batches == v.batches + results.len(),
        after_results(v, results).batch_size == v.batch_size,
        after_results(v, results).winner is None,
    decreases results.len(),
{
    if results.len() == 0 {
        lemma_advanced_by_zero(v.candidate);
    } else {
        let prefix = results.drop_last();
        assert forall|i: int| 0 <= i < prefix.len() implies !#[trigger] is_hit(prefix[i]) by {
            assert(prefix[i] == results[i]);
        }
        lemma_quiet_batches(v, prefix);
        assert(!is_hit(results[results.len() - 1]));
        let n = prefix.len() * v.batch_size;
        lemma_advance_associative(v.candidate, n, v.batch_size);
        assert(n + v.batch_size == results.len() * v.batch_size) by (nonlinear_arith)
            requires
                n == prefix.len() * v.batch_size,
                results.len() == prefix.len() + 1,
        ;
    }
}

/// A hit in the batch at index `k`, after `k` batches without one, ends the
/// search with the hit's bytes as the winner and the candidate advanced
/// `k` times only; later result slots change nothing.
pub proof fn lemma_hit_stops(v: SearchView, results: Seq<Seq<u32>>, k: int)
    requires
        v.phase == Phase::Ready,
        v.winner is None,
        0 <= k < results.len(),
        forall|i: int| 0 <= i < k ==> !#[trigger] is_hit(results[i]),
        is_hit(results[k]),
    ensures
        after_results(v, results).phase == Phase::HitFound,
        after_results(v, results).winner == Some(narrowed(results[k])),
        after_results(v, results).candidate == advanced(v.candidate, k as nat * v.batch_size),
        after_results(v, results).batches == v.batches + k,
    decreases results.len(),
{
    let prefix = results.drop_last();
    if k == results.len() - 1 {
        assert forall|i: int| 0 <= i < prefix.len() implies !#[trigger] is_hit(prefix[i]) by {
            assert(prefix[i] == results[i]);
        }
        lemma_quiet_batches(v, prefix);
    } else {
        assert forall|i: int| 0 <= i < k implies !#[trigger] is_hit(prefix[i]) by {
            assert(prefix[i] == results[i]);
        }
        assert(prefix[k] == results[k]);
        lemma_hit_stops(v, prefix, k);
    }
}

/// A device that always hands back an all-zero result slot never produces
/// a winner, however many batches run.
pub proof fn lemma_zero_slots_never_win(v: SearchView, results: Seq<Seq<u32>>)
    requires
        v.phase == Phase::Ready,
        v.winner is None,
        forall|i: int, j: int|
            0 <= i < results.len() && 0 <= j < results[i].len() ==> #[trigger] results[i][j] == 0,
    ensures
        after_results(v, results).phase == Phase::Ready,
        after_results(v, results).winner is None,
{
    assert forall|i: int| 0 <= i < results.len() implies !#[trigger] is_hit(results[i]) by {
        if is_hit(results[i]) {
            let j = choose|j: int| 0 <= j < results[i].len() && results[i][j] != 0;
            assert(results[i][j] == 0);
        }
    }
    lemma_quiet_batches(v, results);
}

/// The search state owned by the dispatch loop.
pub struct Search {
    candidate: [u8; 32],
    batch_size: u32,
    batches: u64,
    phase: Phase,
    winner: Option<[u8; 32]>,
}

impl View for Search {
    type V = SearchView;

    closed spec fn view(&self) -> SearchView {
        SearchView {
            candidate: self.candidate@,
            batch_size: self.batch_size as nat,
            batches: self.batches as nat,
            phase: self.phase,
            winner: match self.winner {
                Some(w) => Some(w@),
                None => None,
            },
        }
    }
}

impl Search {
    /// Checks `config` and starts a search at `start`: the difficulty must
    /// be at most 256 bits and the batch size must fit in a `u32`.
    pub fn new(config: &SearchConfig, start: [u8; 32]) -> (r: Result<Search, ConfigError>)
        ensures
            config_error(*config) is None <==> r is Ok,
            r matches Err(e) ==> config_error(*config) == Some(e),
            r matches Ok(s) ==> s@ == (SearchView {
                candidate: start@,
                batch_size: batch_units(*config),
                batches: 0,
                phase: Phase::Ready,
                winner: None,
            }),
    {
        if config.difficulty_bits > MAX_DIFFICULTY_BITS {
            return Err(ConfigError::DifficultyTooLarge);
        }
        match batch_size(config) {
            Ok(b) => Ok(
                Search { candidate: start, batch_size: b, batches: 0, phase: Phase::Ready, winner: None },
            ),
            Err(e) => Err(e),
        }
    }

    /// The candidate of the next batch.
    pub fn candidate(&self) -> (r: [u8; 32])
        ensures
            r@ == self@.candidate,
    {
        self.candidate
    }

    /// Candidates one batch covers.
    pub fn batch_size(&self) -> (r: u32)
        ensures
            r == self@.batch_size,
    {
        self.batch_size
    }

    /// Batches that went by without a hit.
    pub fn batches(&self) -> (r: u64)
        ensures
            r == self@.batches,
    {
        self.batches
    }

    /// Candidates hashed in the batches that went by without a hit.
    pub fn hashes(&self) -> (r: u128)
        ensures
            r == self@.batches * self@.batch_size,
    {
        assert(self.batches as nat * self.batch_size as nat <= u64::MAX as nat * u32::MAX as nat)
            by (nonlinear_arith);
        self.batches as u128 * self.batch_size as u128
    }

    /// Where the dispatch loop stands.
    pub fn phase(&self) -> (r: Phase)
        ensures
            r == self@.phase,
    {
        self.phase
    }

    /// The winning input, once a batch has reported one.
    pub fn winner(&self) -> (r: Option<[u8; 32]>)
        ensures
            r is Some <==> self@.winner is Some,
            r matches Some(w) ==> self@.winner == Some(w@),
    {
        self.winner
    }

    /// Starts a batch: a ready search awaits its result from now on and
    /// returns the input words to write to the device, one byte of the
    /// candidate per word. Any other search returns `None` and stays as it
    /// is, so no second batch is ever out.
    pub fn begin_batch(&mut self) -> (r: Option<[u32; 32]>)
        ensures
            final(self)@ == started(old(self)@),
            r is Some <==> old(self)@.phase == Phase::Ready,
            r matches Some(words) ==> words@ == widened(old(self)@.candidate),
    {
        if self.phase == Phase::Ready {
            self.phase = Phase::AwaitingResult;
            Some(input_words(self.candidate.as_slice()))
        } else {
            None
        }
    }

    /// Takes the result slot of the batch that was started: a non-zero
    /// slot is a hit, whose bytes become the winner and end the search; an
    /// all-zero slot advances the candidate by the batch size, wrapping
    /// around past the largest 256-bit value. Returns the winner, if any.
    pub fn on_result(&mut self, result: &[u32; 32]) -> (r: Option<[u8; 32]>)
        requires
            old(self)@.batches < u64::MAX,
        ensures
            final(self)@ == next_view(old(self)@, result@),
            r is Some <==> final(self)@.winner is Some,
            r matches Some(w) ==> final(self)@.winner == Some(w@),
    {
        if self.phase != Phase::AwaitingResult {
            return self.winner;
        }
        if result_is_hit(result) {
            let w = convert_fat_buf(result);
            self.winner = Some(w);
            self.phase = Phase::HitFound;
            proof {
                assert(final(self)@ =~= next_view(old(self)@, result@));
            }
            Some(w)
        } else {
            add_big_int(&mut self.candidate, self.batch_size);
            self.batches = self.batches + 1;
            self.phase = Phase::Ready;
            proof {
                assert(final(self)@ =~= next_view(old(self)@, result@));
            }
            self.winner
        }
    }

    /// Records a device failure: the search ends unless it has already
    /// found its winner.
    pub fn on_failure(&mut self)
        ensures
            final(self)@ == failed(old(self)@),
    {
        if self.phase != Phase::HitFound {
            self.phase = Phase::Failed;
        }
    }
}

} // verus!
