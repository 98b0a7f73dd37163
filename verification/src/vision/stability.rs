//! The stability filter: every recognised board passes here before it may
//! reach the synchronisation state machine.
use vstd::prelude::*;
use crate::diff::{diff_boards, spec_diff_kind, BoardDiffKind};
use crate::vision::observation::BoardObservation;

verus! {

/// Filter settings.
#[derive(Debug, Clone, Copy, PartialEq, Eq, Structural)]
pub struct StabilitySettings {
    /// How many single-square glitches in a row are tolerated before the
    /// filter forgets its stable board.
    pub one_changed_limit: usize,
}

impl Default for StabilitySettings {
    fn default() -> (s: Self)
        ensures
            s.one_changed_limit == 3,
    {
        StabilitySettings { one_changed_limit: 3 }
    }
}

/// Why an observation was turned down (or the filter reset).
#[derive(Debug, Clone, Copy, PartialEq, Eq, Structural)]
pub enum RejectReason {
    OneChanged { count: usize, limit: usize },
    InvalidDiff { kind: BoardDiffKind },
}

/// The filter's verdict on one observation.
#[derive(Debug, Clone, Copy, PartialEq, Eq)]
pub enum StabilityDecision {
    Accepted(BoardObservation),
    Unchanged(BoardObservation),
    Rejected(RejectReason),
    Reset(RejectReason),
}

/// Keeps the last stable observation and counts single-square glitches.
#[derive(Debug, Clone, Copy)]
pub struct StabilityFilter {
    last_stable: Option<BoardObservation>,
    one_changed_count: usize,
    settings: StabilitySettings,
}

/// The abstract content of a [`StabilityFilter`].
pub struct StabilityView {
    pub last_stable: Option<BoardObservation>,
    pub one_changed_count: usize,
    pub settings: StabilitySettings,
}

impl StabilityView {
    /// The glitch counter stays below the limit (or at zero).
    pub open spec fn wf(self) -> bool {
        self.one_changed_count == 0 || self.one_changed_count < self.settings.one_changed_limit
    }

    /// The filter after taking `o` in as its stable observation.
    pub open spec fn settled(self, o: BoardObservation) -> StabilityView {
        StabilityView { last_stable: Some(o), one_changed_count: 0, ..self }
    }

    /// The verdict of `process(o)` and the filter after it.
    pub open spec fn process(self, o: BoardObservation) -> (StabilityDecision, StabilityView) {
        match self.last_stable {
            None => (StabilityDecision::Accepted(o), self.settled(o)),
            Some(last) => if o.board == last.board {
                (StabilityDecision::Unchanged(o), self.settled(o))
            } else {
                let kind = spec_diff_kind(last.board, o.board);
                if kind == BoardDiffKind::NoChange {
                    (StabilityDecision::Unchanged(o), self.settled(o))
                } else if kind == BoardDiffKind::MoveCandidate {
                    (StabilityDecision::Accepted(o), self.settled(o))
                } else if kind == BoardDiffKind::OneChanged {
                    let count = (self.one_changed_count + 1) as usize;
                    let reason = RejectReason::OneChanged {
                        count,
                        limit: self.settings.one_changed_limit,
                    };
                    if count >= self.settings.one_changed_limit {
                        (
                            StabilityDecision::Reset(reason),
                            StabilityView { last_stable: None, one_changed_count: 0, ..self },
                        )
                    } else {
                        (
                            StabilityDecision::Rejected(reason),
                            StabilityView { one_changed_count: count, ..self },
                        )
                    }
                } else {
                    (StabilityDecision::Rejected(RejectReason::InvalidDiff { kind }), self)
                }
            },
        }
    }
}

impl View for StabilityFilter {
    type V = StabilityView;

    closed spec fn view(&self) -> StabilityView {
        StabilityView {
            last_stable: self.last_stable,
            one_changed_count: self.one_changed_count,
            settings: self.settings,
        }
    }
}

impl StabilityFilter {
    /// A filter with no stable observation yet.
    pub fn new(settings: StabilitySettings) -> (f: Self)
        ensures
            f@.wf(),
            f@.last_stable is None,
            f@.one_changed_count == 0,
            f@.settings == settings,
    {
        StabilityFilter { last_stable: None, one_changed_count: 0, settings }
    }

    /// The last observation let through.
    pub fn last_stable(&self) -> (o: Option<&BoardObservation>)
        ensures
            o is None <==> self@.last_stable is None,
            o matches Some(x) ==> self@.last_stable == Some(*x),
    {
        match &self.last_stable {
            Some(x) => Some(x),
            None => None,
        }
    }

    /// Judges one observation. The first one is accepted; a board with the
    /// same squares as the stable one is unchanged; a single move is
    /// accepted; a single changed square is a glitch, tolerated until the
    /// limit is reached in a row, which resets the filter; anything else is
    /// rejected. Accepted and unchanged observations become the stable one.
    pub fn process(&mut self, observation: BoardObservation) -> (d: StabilityDecision)
        requires
            old(self)@.wf(),
        ensures
            final(self)@.wf(),
            (d, final(self)@) == old(self)@.process(observation),
            d matches StabilityDecision::Accepted(x) ==> x == observation && final(self)@.last_stable
                == Some(observation),
            d matches StabilityDecision::Unchanged(x) ==> x == observation && final(self)@.last_stable
                == Some(observation),
    {
        let last = match &self.last_stable {
            None => {
                self.one_changed_count = 0;
                self.last_stable = Some(observation);
                return StabilityDecision::Accepted(observation);
            },
            Some(last) => *last,
        };

        if observation.board == last.board {
            self.one_changed_count = 0;
            self.last_stable = Some(observation);
            return StabilityDecision::Unchanged(observation);
        }

        let diff = diff_boards(&last.board, &observation.board);
        match diff.kind {
            BoardDiffKind::NoChange => {
                self.one_changed_count = 0;
                self.last_stable = Some(observation);
                StabilityDecision::Unchanged(observation)
            },
            BoardDiffKind::MoveCandidate => {
                self.one_changed_count = 0;
                self.last_stable = Some(observation);
                StabilityDecision::Accepted(observation)
            },
            BoardDiffKind::OneChanged => {
                self.one_changed_count = self.one_changed_count + 1;
                let reason = RejectReason::OneChanged {
                    count: self.one_changed_count,
                    limit: self.settings.one_changed_limit,
                };
                if self.one_changed_count >= self.settings.one_changed_limit {
                    self.one_changed_count = 0;
                    self.last_stable = None;
                    StabilityDecision::Reset(reason)
                } else {
                    StabilityDecision::Rejected(reason)
                }
            },
            other => StabilityDecision::Rejected(RejectReason::InvalidDiff { kind: other }),
        }
    }

    /// Forgets the stable observation (for example when the window was resized).
    pub fn reset(&mut self)
        ensures
            final(self)@.wf(),
            final(self)@.last_stable is None,
            final(self)@.one_changed_count == 0,
            final(self)@.settings == old(self)@.settings,
    {
        self.last_stable = None;
        self.one_changed_count = 0;
    }
}

/// A reset filter has forgotten its stable board, so the next observation,
/// whatever it is, is accepted and becomes the stable one.
pub proof fn lemma_first_after_reset_accepted(v: StabilityView, o: BoardObservation)
    requires
        v.last_stable is None,
    ensures
        v.process(o).0 == StabilityDecision::Accepted(o),
        v.process(o).1.last_stable == Some(o),
        v.process(o).1.one_changed_count == 0,
{
}

/// With a limit of `n`, glitches repeated `n` times in a row after a stable
/// board reset the filter on the `n`-th and are rejected before it; the
/// stable board is kept until then.
pub proof fn lemma_glitch_counting(v: StabilityView, o: BoardObservation)
    requires
        v.wf(),
        v.last_stable matches Some(last) && o.board != last.board && spec_diff_kind(last.board, o.board)
            == BoardDiffKind::OneChanged,
    ensures
        v.one_changed_count + 1 >= v.settings.one_changed_limit ==> {
            &&& v.process(o).0 matches StabilityDecision::Reset(_)
            &&& v.process(o).1.last_stable is None
        },
        v.one_changed_count + 1 < v.settings.one_changed_limit ==> {
            &&& v.process(o).0 matches StabilityDecision::Rejected(_)
            &&& v.process(o).1.last_stable == v.last_stable
            &&& v.process(o).1.one_changed_count == v.one_changed_count + 1
        },
        v.process(o).1.wf(),
{
}

/// Whatever the filter holds, an observation it lets through (accepted or
/// unchanged) becomes its stable observation, so the next one is compared
/// with it; one it rejects leaves the stable observation as it was; and a
/// reset forgets it.
pub proof fn lemma_accepted_becomes_stable(v: StabilityView, o: BoardObservation)
    ensures
        v.process(o).0 matches StabilityDecision::Accepted(x) ==> x == o && v.process(o).1.last_stable
            == Some(o) && v.process(o).1.one_changed_count == 0,
        v.process(o).0 matches StabilityDecision::Unchanged(x) ==> x == o && v.process(o).1.last_stable
            == Some(o) && v.process(o).1.one_changed_count == 0,
        v.process(o).0 matches StabilityDecision::Rejected(_) ==> v.process(o).1.last_stable
            == v.last_stable,
        v.process(o).0 matches StabilityDecision::Reset(_) ==> v.process(o).1.last_stable is None,
        v.process(o).1.settings == v.settings,
{
}

/// Two moves in a row are both accepted: after a move from the stable board
/// is accepted, a further move from that new board is judged against it.
pub proof fn lemma_consecutive_moves_accepted(v: StabilityView, o1: BoardObservation, o2: BoardObservation)
    requires
        v.last_stable matches Some(last) && o1.board != last.board && spec_diff_kind(last.board, o1.board)
            == BoardDiffKind::MoveCandidate,
        o2.board != o1.board,
        spec_diff_kind(o1.board, o2.board) == BoardDiffKind::MoveCandidate,
    ensures
        v.process(o1).0 == StabilityDecision::Accepted(o1),
        v.process(o1).1.process(o2).0 == StabilityDecision::Accepted(o2),
        v.process(o1).1.process(o2).1.last_stable == Some(o2),
{
}

} // verus!
