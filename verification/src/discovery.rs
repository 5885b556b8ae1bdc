//! Epoch-boundary discovery: the bisection-plus-linear-scan search over
//! block epoch ids, and the discovery loop that tiles the height axis into
//! epochs. Both are decision state machines: the caller performs the RPC
//! probes and feeds the answers back.

use vstd::prelude::*;
use crate::model::EpochInfo;
use crate::strutil::string_eq;

verus! {

/// Where the boundary search stands: bisecting, or scanning the last few
/// heights one by one.
#[derive(PartialEq, Eq, Structural, Clone, Copy, Debug)]
pub enum SearchPhase {
    Bisect,
    Linear { current: u64 },
}

/// What a block probe came back with.
pub enum ProbeResult {
    /// The chain served a block: its actual height (at least the requested
    /// one under the gap-tolerant read) and its epoch id.
    Block(u64, String),
    /// The probe failed; the search skips forward.
    Failed,
}

/// The boundary search: finds the first height whose epoch id differs from
/// `target_epoch_id`, inside `[low, high]`, returning `high + 1` when every
/// height in the window still carries the target id.
pub struct BoundarySearch {
    pub low: u64,
    pub high: u64,
    pub target_epoch_id: String,
    pub phase: SearchPhase,
    pub result: Option<u64>,
}

impl BoundarySearch {
    pub open spec fn wf(self) -> bool {
        &&& self.high < u64::MAX
        &&& (self.result is None ==> match self.phase {
            SearchPhase::Bisect => self.low <= self.high,
            SearchPhase::Linear { current } => self.low <= current && current <= self.high,
        })
    }

    /// The height the search wants probed next, or nothing once finished.
    pub open spec fn next_probe_spec(self) -> Option<u64> {
        if self.result is Some {
            None
        } else {
            match self.phase {
                SearchPhase::Bisect => Some(
                    ((self.low as int) + ((self.high as int - self.low as int) / 2)) as u64,
                ),
                SearchPhase::Linear { current } => Some(current),
            }
        }
    }
}

/// Settles which phase a freshly-bounded search window is in.
pub open spec fn search_frame(s: BoundarySearch) -> BoundarySearch {
    if s.low > s.high {
        BoundarySearch { result: Some(s.low), phase: SearchPhase::Bisect, ..s }
    } else if s.high - s.low <= 5 {
        BoundarySearch { phase: SearchPhase::Linear { current: s.low }, result: None, ..s }
    } else {
        BoundarySearch { phase: SearchPhase::Bisect, result: None, ..s }
    }
}

/// A fresh search over `[low, high]`.
pub open spec fn search_init(low: u64, high: u64, target: String) -> BoundarySearch {
    search_frame(
        BoundarySearch {
            low,
            high,
            target_epoch_id: target,
            phase: SearchPhase::Bisect,
            result: None,
        },
    )
}

/// One step of the search on a probe answer: bisection narrows by the
/// answer's actual height; the linear scan stops at the first height whose
/// epoch id differs.
pub open spec fn search_step(s: BoundarySearch, o: ProbeResult) -> BoundarySearch {
    match s.phase {
        SearchPhase::Bisect => {
            let mid = ((s.low as int) + ((s.high as int - s.low as int) / 2)) as u64;
            match o {
                ProbeResult::Block(h, id) => {
                    if id@ == s.target_epoch_id@ {
                        search_frame(BoundarySearch { low: (h + 1) as u64, ..s })
                    } else {
                        search_frame(BoundarySearch { high: (h - 1) as u64, ..s })
                    }
                },
                ProbeResult::Failed => search_frame(BoundarySearch { low: (mid + 1) as u64, ..s }),
            }
        },
        SearchPhase::Linear { current } => {
            let same = match o {
                ProbeResult::Block(h, id) => id@ == s.target_epoch_id@,
                ProbeResult::Failed => true,
            };
            if !same {
                BoundarySearch { result: Some(current), ..s }
            } else if current + 1 > s.high {
                BoundarySearch { result: Some((s.high + 1) as u64), ..s }
            } else {
                BoundarySearch { phase: SearchPhase::Linear { current: (current + 1) as u64 }, ..s }
            }
        },
    }
}

impl BoundarySearch {
    /// Starts a search over `[low, high]` for the end of the epoch whose id
    /// is `target`.
    pub fn new(low: u64, high: u64, target: String) -> (r: BoundarySearch)
        requires
            high < u64::MAX,
        ensures
            r == search_init(low, high, target),
            r.wf(),
    {
        let mut s = BoundarySearch {
            low,
            high,
            target_epoch_id: target,
            phase: SearchPhase::Bisect,
            result: None,
        };
        if s.low > s.high {
            s.result = Some(s.low);
            s
        } else if s.high - s.low <= 5 {
            s.phase = SearchPhase::Linear { current: s.low };
            s
        } else {
            s
        }
    }

    /// The height to probe next, or nothing once the boundary is settled.
    pub fn next_probe(&self) -> (r: Option<u64>)
        requires
            self.wf(),
        ensures
            r == self.next_probe_spec(),
    {
        match self.result {
            Some(_) => None,
            None => match self.phase {
                SearchPhase::Bisect => Some(self.low + (self.high - self.low) / 2),
                SearchPhase::Linear { current } => Some(current),
            },
        }
    }

    /// Feeds one probe answer in.
    pub fn on_probe(&mut self, outcome: ProbeResult)
        requires
            old(self).wf(),
            old(self).result is None,
            outcome matches ProbeResult::Block(h, _) ==> 1 <= h && h < u64::MAX,
        ensures
            *final(self) == search_step(*old(self), outcome),
            final(self).wf(),
    {
        match self.phase {
            SearchPhase::Bisect => {
                let mid = self.low + (self.high - self.low) / 2;
                match outcome {
                    ProbeResult::Block(h, id) => {
                        if string_eq(&id, self.target_epoch_id.as_str()) {
                            self.low = h + 1;
                        } else {
                            self.high = h - 1;
                        }
                    }
                    ProbeResult::Failed => {
                        self.low = mid + 1;
                    }
                }
                if self.low > self.high {
                    self.result = Some(self.low);
                } else if self.high - self.low <= 5 {
                    self.phase = SearchPhase::Linear { current: self.low };
                } else {
                    self.phase = SearchPhase::Bisect;
                }
            }
            SearchPhase::Linear { current } => {
                let same = match &outcome {
                    ProbeResult::Block(_, id) => string_eq(id, self.target_epoch_id.as_str()),
                    ProbeResult::Failed => true,
                };
                if !same {
                    self.result = Some(current);
                } else if current + 1 > self.high {
                    self.result = Some(self.high + 1);
                } else {
                    self.phase = SearchPhase::Linear { current: current + 1 };
                }
            }
        }
    }
}

/// The oracle behaves as a single boundary at `b`: a served block carries
/// the target epoch id exactly below `b`. In the linear phase the answer
/// must also be the probed height itself (no failed or skipped heights).
pub open spec fn consistent_probe(s: BoundarySearch, b: u64, o: ProbeResult) -> bool {
    match o {
        ProbeResult::Block(h, id) => {
            &&& 1 <= h && h < u64::MAX
            &&& ((id@ == s.target_epoch_id@) <==> (h < b))
            &&& (s.phase matches SearchPhase::Linear { current } ==> h == current)
        },
        ProbeResult::Failed => false,
    }
}

/// The search brackets the boundary `b`, and once settled reports exactly
/// `b`.
pub open spec fn boundary_inv(s: BoundarySearch, b: u64) -> bool {
    match s.result {
        Option::Some(r) => r == b,
        Option::None => {
            &&& s.low <= b
            &&& b <= s.high + 1
            &&& (s.phase matches SearchPhase::Linear { current } ==> current <= b)
        },
    }
}

/// A fresh search over a window that brackets the boundary starts with the
/// invariant.
pub proof fn lemma_search_init(low: u64, high: u64, target: String, b: u64)
    requires
        high < u64::MAX,
        low <= b,
        b <= high + 1,
    ensures
        boundary_inv(search_init(low, high, target), b),
{
}

/// Epoch-boundary search correctness: every step taken on an answer that is
/// consistent with a single boundary `b` keeps the search bracketing `b`,
/// so the settled result can only be `b` itself.
pub proof fn lemma_search_step_preserves(s: BoundarySearch, o: ProbeResult, b: u64)
    requires
        s.wf(),
        s.result is None,
        boundary_inv(s, b),
        consistent_probe(s, b, o),
    ensures
        boundary_inv(search_step(s, o), b),
{
}

/// Why a discovery step was rejected.
#[derive(PartialEq, Eq, Structural, Clone, Copy, Debug)]
pub enum DiscoveryError {
    /// The reported boundary does not lie beyond the running epoch's start.
    BoundaryOutOfRange,
    /// The block at the boundary carries an epoch id already recorded.
    DuplicateEpochId,
}

/// The discovery loop: walks from a start block to the latest finalised
/// block, recording one `EpochInfo` per boundary found and a trailing
/// partial epoch at the end.
pub struct DiscoveryState {
    pub latest_final: u64,
    pub epoch_blocks: u64,
    /// The start block of the epoch being walked; always the next epoch's
    /// start once a boundary is recorded.
    pub epoch_start_block: u64,
    pub current_epoch_id: String,
    /// Milliseconds since the Unix epoch of the running epoch's first block.
    pub epoch_timestamp: u64,
    pub epochs: Vec<EpochInfo>,
    pub finished: bool,
}

impl DiscoveryState {
    pub open spec fn wf(self) -> bool {
        &&& self.epoch_blocks < 0x100000000
        &&& self.latest_final < 0x4000000000000000
        &&& self.epoch_start_block < 0x8000000000000000
        &&& (forall|i: int|
            0 <= i < self.epochs@.len() - 1 ==> ((#[trigger] self.epochs@[i].end_block)
                matches Some(e) && e as int + 1 == self.epochs@[i + 1].start_block as int))
        &&& (forall|i: int|
            0 <= i < self.epochs@.len() ==> ((#[trigger] self.epochs@[i].end_block)
                matches Some(e) && self.epochs@[i].start_block <= e))
        &&& (!self.finished && self.epochs@.len() > 0 ==> (self.epochs@.last().end_block
            matches Some(e) && e as int + 1 == self.epoch_start_block as int))
        &&& (forall|i: int, j: int|
            0 <= i < j < self.epochs@.len() ==> self.epochs@[i].epoch_id@
                != self.epochs@[j].epoch_id@)
        &&& (!self.finished ==> forall|i: int|
            0 <= i < self.epochs@.len() ==> (#[trigger] self.epochs@[i].epoch_id@)
                != self.current_epoch_id@)
    }

    /// Begins discovery at `start_block`, whose block carries
    /// `initial_epoch_id` and `initial_timestamp` (milliseconds).
    pub fn new(
        start_block: u64,
        latest_final: u64,
        epoch_blocks: u64,
        initial_epoch_id: String,
        initial_timestamp: u64,
    ) -> (r: DiscoveryState)
        requires
            epoch_blocks < 0x100000000,
            latest_final < 0x4000000000000000,
            start_block < 0x8000000000000000,
        ensures
            r.wf(),
            r.latest_final == latest_final,
            r.epoch_blocks == epoch_blocks,
            r.epoch_start_block == start_block,
            r.current_epoch_id == initial_epoch_id,
            r.epoch_timestamp == initial_timestamp,
            r.epochs@.len() == 0,
            !r.finished,
    {
        DiscoveryState {
            latest_final,
            epoch_blocks,
            epoch_start_block: start_block,
            current_epoch_id: initial_epoch_id,
            epoch_timestamp: initial_timestamp,
            epochs: Vec::new(),
            finished: false,
        }
    }

    /// The search window for the next boundary, or nothing where the walk
    /// has reached the latest finalised block and only the trailing partial
    /// epoch remains.
    pub open spec fn next_window_spec(self) -> Option<(u64, u64)> {
        if self.finished || self.epoch_start_block >= self.latest_final
            || self.epoch_start_block + self.epoch_blocks >= self.latest_final {
            None
        } else {
            Some(
                (
                    self.epoch_start_block,
                    (self.epoch_start_block + self.epoch_blocks + self.epoch_blocks / 2) as u64,
                ),
            )
        }
    }

    /// Where to search for the running epoch's boundary.
    pub fn next_window(&self) -> (r: Option<(u64, u64)>)
        requires
            self.wf(),
        ensures
            r == self.next_window_spec(),
    {
        if self.finished || self.epoch_start_block >= self.latest_final {
            return None;
        }
        let estimated = self.epoch_start_block + self.epoch_blocks;
        if estimated >= self.latest_final {
            return None;
        }
        Some((self.epoch_start_block, estimated + self.epoch_blocks / 2))
    }

    /// Records the boundary the search settled on: the running epoch is
    /// closed at `boundary - 1` and the walk moves to the new epoch, whose
    /// block carries `new_epoch_id` and `new_timestamp`. Rejected, with the
    /// state unchanged, where the boundary does not advance or where the
    /// new id repeats one already recorded.
    pub fn on_boundary(
        &mut self,
        boundary: u64,
        new_epoch_id: String,
        new_timestamp: u64,
    ) -> (r: Result<(), DiscoveryError>)
        requires
            old(self).wf(),
            !old(self).finished,
            boundary < 0x8000000000000000,
        ensures
            final(self).wf(),
            r matches Err(e) ==> *final(self) == *old(self) && (e
                == DiscoveryError::BoundaryOutOfRange <==> boundary
                <= old(self).epoch_start_block),
            r is Err <==> (boundary <= old(self).epoch_start_block || new_epoch_id@
                == old(self).current_epoch_id@ || exists|i: int|
                0 <= i < old(self).epochs@.len() && (#[trigger] old(
                    self,
                ).epochs@[i].epoch_id@) == new_epoch_id@),
            r is Ok ==> ({
                &&& final(self).epochs@.len() == old(self).epochs@.len() + 1
                &&& (forall|i: int|
                    0 <= i < old(self).epochs@.len() ==> final(self).epochs@[i] == old(
                        self,
                    ).epochs@[i])
                &&& final(self).epochs@.last().start_block == old(self).epoch_start_block
                &&& final(self).epochs@.last().end_block == Some((boundary - 1) as u64)
                &&& final(self).epochs@.last().epoch_id@ == old(self).current_epoch_id@
                &&& final(self).epochs@.last().timestamp == old(self).epoch_timestamp
                &&& final(self).epoch_start_block == boundary
                &&& final(self).current_epoch_id == new_epoch_id
                &&& final(self).epoch_timestamp == new_timestamp
                &&& !final(self).finished
                &&& final(self).latest_final == old(self).latest_final
                &&& final(self).epoch_blocks == old(self).epoch_blocks
            }),
    {
        if boundary <= self.epoch_start_block {
            return Err(DiscoveryError::BoundaryOutOfRange);
        }
        if string_eq(&self.current_epoch_id, new_epoch_id.as_str()) {
            return Err(DiscoveryError::DuplicateEpochId);
        }
        let mut i: usize = 0;
        while i < self.epochs.len()
            invariant
                *self == *old(self),
                self.wf(),
                !self.finished,
                boundary > self.epoch_start_block,
                new_epoch_id@ != self.current_epoch_id@,
                i <= self.epochs@.len(),
                forall|j: int|
                    0 <= j < i ==> (#[trigger] self.epochs@[j].epoch_id@) != new_epoch_id@,
            decreases self.epochs@.len() - i,
        {
            if string_eq(&self.epochs[i].epoch_id, new_epoch_id.as_str()) {
                return Err(DiscoveryError::DuplicateEpochId);
            }
            i += 1;
        }
        let closed = EpochInfo {
            start_block: self.epoch_start_block,
            end_block: Some(boundary - 1),
            epoch_id: self.current_epoch_id.clone(),
            timestamp: self.epoch_timestamp,
        };
        let ghost old_epochs = self.epochs@;
        self.epochs.push(closed);
        self.epoch_start_block = boundary;
        self.current_epoch_id = new_epoch_id;
        self.epoch_timestamp = new_timestamp;
        proof {
            assert(self.epochs@.last() == closed);
            assert(forall|j: int| 0 <= j < old_epochs.len() ==> self.epochs@[j] == old_epochs[j]);
        }
        Ok(())
    }

    /// Ends the walk, recording the trailing partial epoch up to the latest
    /// finalised block where one remains open.
    pub fn finish(&mut self)
        requires
            old(self).wf(),
            !old(self).finished,
        ensures
            final(self).wf(),
            final(self).finished,
            old(self).epoch_start_block < old(self).latest_final ==> ({
                &&& final(self).epochs@.len() == old(self).epochs@.len() + 1
                &&& (forall|i: int|
                    0 <= i < old(self).epochs@.len() ==> final(self).epochs@[i] == old(
                        self,
                    ).epochs@[i])
                &&& final(self).epochs@.last().start_block == old(self).epoch_start_block
                &&& final(self).epochs@.last().end_block == Some(old(self).latest_final)
                &&& final(self).epochs@.last().epoch_id@ == old(self).current_epoch_id@
                &&& final(self).epochs@.last().timestamp == old(self).epoch_timestamp
            }),
            old(self).epoch_start_block >= old(self).latest_final ==> final(self).epochs@ == old(
                self,
            ).epochs@,
    {
        if self.epoch_start_block < self.latest_final {
            let tail = EpochInfo {
                start_block: self.epoch_start_block,
                end_block: Some(self.latest_final),
                epoch_id: self.current_epoch_id.clone(),
                timestamp: self.epoch_timestamp,
            };
            let ghost old_epochs = self.epochs@;
            self.epochs.push(tail);
            proof {
                assert(self.epochs@.last() == tail);
                assert(forall|j: int|
                    0 <= j < old_epochs.len() ==> self.epochs@[j] == old_epochs[j]);
            }
        }
        self.finished = true;
    }
}

/// Epoch coverage: the discovered epochs tile the height axis without gaps
/// (each epoch ends right before the next one starts) and carry
/// pairwise-distinct epoch ids.
pub proof fn lemma_epoch_coverage(s: DiscoveryState)
    requires
        s.wf(),
    ensures
        forall|i: int|
            0 <= i < s.epochs@.len() - 1 ==> ((#[trigger] s.epochs@[i].end_block) matches Some(e)
                && e as int + 1 == s.epochs@[i + 1].start_block as int),
        forall|i: int, j: int|
            0 <= i < j < s.epochs@.len() ==> s.epochs@[i].epoch_id@ != s.epochs@[j].epoch_id@,
{
}

/// The processing bound of epoch `index`: one block short of the next
/// epoch's start, or unbounded for the last.
pub fn epoch_end_bound(epochs: &Vec<EpochInfo>, index: usize) -> (r: u64)
    requires
        index < epochs@.len(),
        index + 1 < epochs@.len() ==> epochs@[index as int + 1].start_block >= 1,
    ensures
        r as int == if index + 1 < epochs@.len() {
            epochs@[index as int + 1].start_block - 1
        } else {
            u64::MAX as int
        },
{
    let n = epochs.len();
    if index + 1 < n {
        epochs[index + 1].start_block - 1
    } else {
        u64::MAX
    }
}

/// Whether discovery must resume: more than one epoch's worth of blocks
/// lies beyond the last persisted epoch start.
pub fn should_resync(latest_start: u64, current_block: u64, epoch_blocks: u64) -> (r: bool)
    requires
        latest_start <= current_block,
    ensures
        r == (current_block - latest_start > epoch_blocks),
{
    current_block - latest_start > epoch_blocks
}

} // verus!
