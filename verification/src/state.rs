//! The shared aggregate state of one triage run: outcome counters, the set
//! of crash signatures already reported, and the map of distinct errors with
//! their occurrence counts. Workers hold a lock around `update`; every
//! critical-section decision is made here.

use vstd::prelude::*;

use crate::gdb_triage::{GdbTriageError, GdbTriageErrorKind};
use crate::strutil::str_eq;

verus! {

/// What one finished test case contributes to the aggregate state: its
/// outcome class, with the crash signature or the error it produced.
pub enum OutcomeSummary {
    NoCrash,
    Timedout,
    Crash { stackhash: String },
    Errored { error: GdbTriageError },
}

/// What the caller owes after an update: for a crash, whether this signature
/// is new — only then is a report rendered and written.
#[derive(Debug, PartialEq, Eq, Structural, Clone, Copy)]
pub enum UpdateAction {
    Logged,
    NewCrash,
    DuplicateCrash,
}

/// No two signatures of the set coincide.
pub open spec fn sigs_unique(s: Seq<Seq<char>>) -> bool {
    forall|i: int, j: int| 0 <= i < j < s.len() ==> s[i] != s[j]
}

/// The signature is already in the set.
pub open spec fn sig_present(s: Seq<Seq<char>>, h: Seq<char>) -> bool {
    exists|i: int| 0 <= i < s.len() && s[i] == h
}

/// What makes two triage errors the same entry of the error map: kind,
/// message and detail lines.
pub open spec fn err_key(e: GdbTriageError) -> (GdbTriageErrorKind, Seq<char>, Seq<Seq<char>>) {
    (e.error_kind, e.error@, e.details.deep_view())
}

/// No two entries of the error map share a key.
pub open spec fn err_keys_unique(m: Seq<(GdbTriageError, usize)>) -> bool {
    forall|i: int, j: int| 0 <= i < j < m.len() ==> err_key(m[i].0) != err_key(m[j].0)
}

/// An error with this key is already in the map.
pub open spec fn err_present(m: Seq<(GdbTriageError, usize)>, e: GdbTriageError) -> bool {
    exists|i: int| 0 <= i < m.len() && err_key(m[i].0) == err_key(e)
}

/// The aggregate state shared by all workers.
pub struct TriageState {
    pub crashed: usize,
    pub no_crash: usize,
    pub timedout: usize,
    pub errored: usize,
    pub crash_signature: Vec<String>,
    pub unique_errors: Vec<(GdbTriageError, usize)>,
}

impl TriageState {
    /// How many test cases have been folded into this state: the four
    /// counters always sum to exactly that number.
    pub open spec fn processed(self) -> int {
        self.crashed + self.no_crash + self.timedout + self.errored
    }

    /// Well-formedness: signatures are unique and never outnumber the
    /// crashes, error-map keys are unique, and every error count lies
    /// between one and the errored counter.
    pub open spec fn wf(self) -> bool {
        &&& sigs_unique(self.crash_signature.deep_view())
        &&& self.crash_signature@.len() <= self.crashed
        &&& err_keys_unique(self.unique_errors@)
        &&& forall|i: int|
            0 <= i < self.unique_errors@.len() ==> 1 <= #[trigger] self.unique_errors@[i].1
                <= self.errored
    }

    /// The fresh state: nothing processed, nothing seen.
    pub fn new() -> (r: TriageState)
        ensures
            r.wf(),
            r.processed() == 0,
            r.crashed == 0,
            r.no_crash == 0,
            r.timedout == 0,
            r.errored == 0,
            r.crash_signature@.len() == 0,
            r.unique_errors@.len() == 0,
    {
        TriageState {
            crashed: 0,
            no_crash: 0,
            timedout: 0,
            errored: 0,
            crash_signature: Vec::new(),
            unique_errors: Vec::new(),
        }
    }

    /// Fold one finished test case into the state.
    ///
    /// Exactly one counter rises by one. A crash whose signature is new adds
    /// it to the set and owes the caller a report; a repeated signature is
    /// dedup-suppressed. An error bumps its entry of the error map, or joins
    /// the map with count one.
    pub fn update(&mut self, outcome: OutcomeSummary) -> (r: UpdateAction)
        requires
            old(self).wf(),
            old(self).processed() < usize::MAX,
        ensures
            final(self).wf(),
            final(self).processed() == old(self).processed() + 1,
            match outcome {
                OutcomeSummary::NoCrash => {
                    &&& r == UpdateAction::Logged
                    &&& *final(self) == TriageState {
                        no_crash: (old(self).no_crash + 1) as usize,
                        ..*old(self)
                    }
                },
                OutcomeSummary::Timedout => {
                    &&& r == UpdateAction::Logged
                    &&& *final(self) == TriageState {
                        timedout: (old(self).timedout + 1) as usize,
                        ..*old(self)
                    }
                },
                OutcomeSummary::Crash { stackhash } => {
                    &&& final(self).crashed == old(self).crashed + 1
                    &&& final(self).no_crash == old(self).no_crash
                    &&& final(self).timedout == old(self).timedout
                    &&& final(self).errored == old(self).errored
                    &&& final(self).unique_errors == old(self).unique_errors
                    &&& if sig_present(old(self).crash_signature.deep_view(), stackhash@) {
                        &&& r == UpdateAction::DuplicateCrash
                        &&& final(self).crash_signature == old(self).crash_signature
                    } else {
                        &&& r == UpdateAction::NewCrash
                        &&& final(self).crash_signature@ == old(self).crash_signature@.push(stackhash)
                    }
                },
                OutcomeSummary::Errored { error } => {
                    &&& r == UpdateAction::Logged
                    &&& final(self).errored == old(self).errored + 1
                    &&& final(self).crashed == old(self).crashed
                    &&& final(self).no_crash == old(self).no_crash
                    &&& final(self).timedout == old(self).timedout
                    &&& final(self).crash_signature == old(self).crash_signature
                    &&& if err_present(old(self).unique_errors@, error) {
                        exists|i: int|
                            {
                                &&& 0 <= i < old(self).unique_errors@.len()
                                &&& err_key(#[trigger] old(self).unique_errors@[i].0) == err_key(
                                    error,
                                )
                                &&& final(self).unique_errors@ == old(self).unique_errors@.update(
                                    i,
                                    (
                                        old(self).unique_errors@[i].0,
                                        (old(self).unique_errors@[i].1 + 1) as usize,
                                    ),
                                )
                            }
                    } else {
                        final(self).unique_errors@ == old(self).unique_errors@.push((error, 1usize))
                    }
                },
            },
    {
        match outcome {
            OutcomeSummary::NoCrash => {
                self.no_crash += 1;
                UpdateAction::Logged
            },
            OutcomeSummary::Timedout => {
                self.timedout += 1;
                UpdateAction::Logged
            },
            OutcomeSummary::Crash { stackhash } => {
                self.crashed += 1;
                if contains_sig(&self.crash_signature, stackhash.as_str()) {
                    UpdateAction::DuplicateCrash
                } else {
                    self.crash_signature.push(stackhash);
                    proof {
                        assert(self.crash_signature.deep_view() =~= old(
                            self,
                        ).crash_signature.deep_view().push(stackhash@));
                        assert forall|i: int, j: int|
                            0 <= i < j < self.crash_signature.deep_view().len() implies self.crash_signature.deep_view()[i]
                            != self.crash_signature.deep_view()[j] by {
                            if j == self.crash_signature.deep_view().len() - 1 {
                                assert(!sig_present(
                                    old(self).crash_signature.deep_view(),
                                    stackhash@,
                                ));
                            }
                        }
                    }
                    UpdateAction::NewCrash
                }
            },
            OutcomeSummary::Errored { error } => {
                self.errored += 1;
                let n = self.unique_errors.len();
                let mut i: usize = 0;
                while i < n
                    invariant
                        (outcome matches OutcomeSummary::Errored { error: e2 } && e2 == error),
                        old(self).wf(),
                        old(self).processed() < usize::MAX,
                        self.crashed == old(self).crashed,
                        self.no_crash == old(self).no_crash,
                        self.timedout == old(self).timedout,
                        self.errored == old(self).errored + 1,
                        self.crash_signature == old(self).crash_signature,
                        self.unique_errors == old(self).unique_errors,
                        n == self.unique_errors@.len(),
                        i <= n,
                        forall|j: int|
                            0 <= j < i ==> err_key(#[trigger] self.unique_errors@[j].0) != err_key(
                                error,
                            ),
                    decreases n - i,
                {
                    if self.unique_errors[i].0 == error {
                        let c = self.unique_errors[i].1;
                        proof {
                            assert(1 <= c <= old(self).errored);
                        }
                        self.unique_errors[i].1 = c + 1;
                        proof {
                            assert(err_key(old(self).unique_errors@[i as int].0) == err_key(error));
                            assert(self.unique_errors@ == old(self).unique_errors@.update(
                                i as int,
                                (
                                    old(self).unique_errors@[i as int].0,
                                    (old(self).unique_errors@[i as int].1 + 1) as usize,
                                ),
                            ));
                        }
                        return UpdateAction::Logged;
                    }
                    i += 1;
                }
                proof {
                    assert(!err_present(old(self).unique_errors@, error));
                }
                self.unique_errors.push((error, 1));
                UpdateAction::Logged
            },
        }
    }

    /// The run's concluding judgements: whether every case errored, whether
    /// any error occurred at all, whether no case crashed, and whether every
    /// case timed out.
    pub fn final_flags(&self, total: usize) -> (r: (bool, bool, bool, bool))
        ensures
            r.0 == (self.errored == total),
            r.1 == (self.errored > 0),
            r.2 == (self.no_crash == total),
            r.3 == (self.timedout == total),
    {
        (self.errored == total, self.errored > 0, self.no_crash == total, self.timedout == total)
    }
}

/// The four counters of a state, in outcome order: crashed, no-crash,
/// timed-out, errored.
pub open spec fn counts_of(s: TriageState) -> (int, int, int, int) {
    (s.crashed as int, s.no_crash as int, s.timedout as int, s.errored as int)
}

/// How one outcome moves the counters: exactly one of them rises by one.
pub open spec fn counts_step(c: (int, int, int, int), o: OutcomeSummary) -> (int, int, int, int) {
    match o {
        OutcomeSummary::Crash { .. } => (c.0 + 1, c.1, c.2, c.3),
        OutcomeSummary::NoCrash => (c.0, c.1 + 1, c.2, c.3),
        OutcomeSummary::Timedout => (c.0, c.1, c.2 + 1, c.3),
        OutcomeSummary::Errored { .. } => (c.0, c.1, c.2, c.3 + 1),
    }
}

/// The counters after folding a batch of outcomes, first to last.
pub open spec fn counts_after(c: (int, int, int, int), outs: Seq<OutcomeSummary>) -> (
    int,
    int,
    int,
    int,
)
    decreases outs.len(),
{
    if outs.len() == 0 {
        c
    } else {
        counts_after(counts_step(c, outs[0]), outs.skip(1))
    }
}

/// The sum of the four counters.
pub open spec fn total_of(c: (int, int, int, int)) -> int {
    c.0 + c.1 + c.2 + c.3
}

/// Folding one more outcome is one more step at the end.
pub proof fn lemma_counts_after_push(
    c: (int, int, int, int),
    outs: Seq<OutcomeSummary>,
    o: OutcomeSummary,
)
    ensures
        counts_after(c, outs.push(o)) == counts_step(counts_after(c, outs), o),
    decreases outs.len(),
{
    if outs.len() == 0 {
        assert(outs.push(o)[0] == o);
        assert(outs.push(o).skip(1) =~= Seq::<OutcomeSummary>::empty());
        assert(counts_after(counts_step(c, o), outs.push(o).skip(1)) == counts_step(c, o));
        assert(counts_after(c, outs) == c);
    } else {
        assert(outs.push(o)[0] == outs[0]);
        assert(outs.push(o).skip(1) =~= outs.skip(1).push(o));
        lemma_counts_after_push(counts_step(c, outs[0]), outs.skip(1), o);
        assert(counts_after(c, outs.push(o)) == counts_after(
            counts_step(c, outs[0]),
            outs.skip(1).push(o),
        ));
        assert(counts_after(c, outs) == counts_after(counts_step(c, outs[0]), outs.skip(1)));
    }
}

/// Aggregate conservation, stated over the fold itself: each outcome raises
/// the counters' sum by exactly one, so after a batch the four counters sum
/// to the starting total plus the batch's length.
pub proof fn lemma_counts_after_total(c: (int, int, int, int), outs: Seq<OutcomeSummary>)
    ensures
        total_of(counts_after(c, outs)) == total_of(c) + outs.len(),
    decreases outs.len(),
{
    if outs.len() > 0 {
        lemma_counts_after_total(counts_step(c, outs[0]), outs.skip(1));
    }
}

/// The signature set grows monotonically within one run: adding a signature
/// keeps every signature already present — so a signature once seen stays
/// seen, and a later crash with it is always dedup-suppressed.
pub proof fn lemma_signatures_monotone(sigs: Seq<Seq<char>>, h: Seq<char>)
    ensures
        sig_present(sigs.push(h), h),
        forall|x: Seq<char>| sig_present(sigs, x) ==> sig_present(sigs.push(h), x),
{
    assert(sigs.push(h)[sigs.len() as int] == h);
    assert forall|x: Seq<char>| sig_present(sigs, x) implies sig_present(sigs.push(h), x) by {
        let i = choose|i: int| 0 <= i < sigs.len() && sigs[i] == x;
        assert(sigs.push(h)[i] == x);
    }
}

/// Whether a signature is already in the set.
pub fn contains_sig(sigs: &Vec<String>, h: &str) -> (r: bool)
    ensures
        r == sig_present(sigs.deep_view(), h@),
{
    let n = sigs.len();
    let mut i: usize = 0;
    while i < n
        invariant
            n == sigs@.len(),
            sigs.deep_view().len() == n,
            forall|j: int| 0 <= j < n ==> sigs.deep_view()[j] == sigs@[j]@,
            i <= n,
            forall|j: int| 0 <= j < i ==> sigs.deep_view()[j] != h@,
        decreases n - i,
    {
        if str_eq(sigs[i].as_str(), h) {
            assert(sigs.deep_view()[i as int] == h@);
            return true;
        }
        i += 1;
    }
    false
}

/// Aggregate conservation: folding a batch of outcomes into the state raises
/// the processed total by exactly the batch's length — the four counters
/// always sum to the number of completed test cases.
pub fn apply_outcomes(state: &mut TriageState, outcomes: Vec<OutcomeSummary>) -> (r: Vec<
    UpdateAction,
>)
    requires
        old(state).wf(),
        old(state).processed() + outcomes@.len() <= usize::MAX,
    ensures
        final(state).wf(),
        counts_of(*final(state)) == counts_after(counts_of(*old(state)), outcomes@),
        final(state).processed() == old(state).processed() + outcomes@.len(),
        r@.len() == outcomes@.len(),
{
    let mut actions: Vec<UpdateAction> = Vec::new();
    let ghost outs = outcomes@;
    let mut remaining = outcomes;
    let ghost n = outs.len() as int;
    let ghost start_processed = old(state).processed();
    let ghost start_counts = counts_of(*old(state));
    proof {
        assert(outs.take(0) =~= Seq::<OutcomeSummary>::empty());
        assert(outs.skip(0) =~= outs);
    }
    while remaining.len() > 0
        invariant
            state.wf(),
            actions@.len() + remaining@.len() == n,
            n == outs.len(),
            remaining@ == outs.skip(actions@.len() as int),
            start_processed + n <= usize::MAX,
            state.processed() == start_processed + actions@.len(),
            counts_of(*state) == counts_after(start_counts, outs.take(actions@.len() as int)),
        decreases remaining@.len(),
    {
        let ghost k = actions@.len() as int;
        let outcome = remaining.remove(0);
        proof {
            assert(0 <= k < n);
            assert(outcome == outs.skip(k)[0]);
            assert(outcome == outs[k]);
            assert(remaining@ =~= outs.skip(k + 1));
        }
        let a = state.update(outcome);
        actions.push(a);
        proof {
            lemma_counts_after_push(start_counts, outs.take(k), outs[k]);
            assert(outs.take(k).push(outs[k]) =~= outs.take(k + 1));
        }
    }
    proof {
        assert(outs.take(n) =~= outs);
    }
    actions
}

} // verus!
