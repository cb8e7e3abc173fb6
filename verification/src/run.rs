//! Carrying out what was planned: which operation is due, and what becomes
//! of the rest when the hardware fails.
use crate::interface::{fault, fault_of, DisplayError};
use crate::io::LineOp;
use vstd::prelude::*;

verus! {

/// What the hardware made of one operation.
#[derive(Clone, Copy, Debug, PartialEq, Eq, Structural)]
pub enum Outcome {
    /// The operation was carried out.
    Done,
    /// The line was read and had this level.
    Level(bool),
    /// The operation could not be carried out.
    Failed,
}

/// Whether the outcome is one that lets the run go on after `op`: a level
/// for a line that was to be read, and anything but a failure otherwise.
pub open spec fn succeeds(op: LineOp, outcome: Outcome) -> bool {
    match op {
        LineOp::Sample(_) => outcome is Level,
        _ => !(outcome is Failed),
    }
}

/// The levels among the outcomes of the first `n` operations: one for each
/// line that was to be read, in order.
pub open spec fn levels_read(ops: Seq<LineOp>, outcomes: Seq<Outcome>, n: nat) -> Seq<bool>
    decreases n,
{
    if n == 0 {
        Seq::empty()
    } else {
        let before = levels_read(ops, outcomes, (n - 1) as nat);
        match (ops[n - 1], outcomes[n - 1]) {
            (LineOp::Sample(_), Outcome::Level(level)) => before.push(level),
            _ => before,
        }
    }
}

/// The run of a wire, operation by operation.
pub struct Run<'a> {
    wire: &'a [LineOp],
    at: usize,
    failed: Option<DisplayError>,
    levels: Vec<bool>,
    outcomes: Ghost<Seq<Outcome>>,
}

impl<'a> Run<'a> {
    #[verifier::type_invariant]
    spec fn consistent(self) -> bool {
        &&& self.at <= self.wire@.len()
        &&& self.outcomes@.len() == self.at
        &&& self.levels@ == levels_read(self.wire@, self.outcomes@, self.at as nat)
        &&& forall|i: int|
            0 <= i < self.at - 1 ==> succeeds(self.wire@[i], #[trigger] self.outcomes@[i])
        &&& self.failed is None ==> forall|i: int|
            0 <= i < self.at ==> succeeds(self.wire@[i], #[trigger] self.outcomes@[i])
        &&& self.failed is Some ==> {
            &&& self.at >= 1
            &&& !succeeds(self.wire@[self.at - 1], self.outcomes@[self.at - 1])
            &&& self.failed == Some(fault_of(self.wire@[self.at - 1]))
        }
    }

    /// The operations that are to be carried out.
    pub closed spec fn wire(self) -> Seq<LineOp> {
        self.wire@
    }

    /// The outcomes that were reported, one for each operation that was
    /// handed out.
    pub closed spec fn outcomes(self) -> Seq<Outcome> {
        self.outcomes@
    }

    /// The error of the operation that failed, if one did.
    pub closed spec fn failure(self) -> Option<DisplayError> {
        self.failed
    }

    /// The levels that were read so far.
    pub closed spec fn levels(self) -> Seq<bool> {
        self.levels@
    }

    /// A run that has carried out nothing yet.
    pub fn new(wire: &'a [LineOp]) -> (run: Run<'a>)
        ensures
            run.wire() == wire@,
            run.outcomes() == Seq::<Outcome>::empty(),
            run.failure() is None,
            run.levels() == Seq::<bool>::empty(),
    {
        Run { wire: wire, at: 0, failed: None, levels: Vec::new(), outcomes: Ghost(Seq::empty()) }
    }

    /// The operation that is due: the one after the last that was reported,
    /// as long as none has failed. After a failure nothing is due any more,
    /// not even what would put the lines back at rest.
    pub fn next(&self) -> (op: Option<LineOp>)
        ensures
            op is Some <==> self.due(),
            op is Some ==> op == Some(self.wire()[self.outcomes().len() as int]),
    {
        proof {
            use_type_invariant(self);
        }
        if self.failed.is_none() && self.at < self.wire.len() {
            Some(self.wire[self.at])
        } else {
            None
        }
    }

    /// Whether an operation is due.
    pub open spec fn due(self) -> bool {
        self.failure() is None && self.outcomes().len() < self.wire().len()
    }

    /// Takes what the hardware made of the operation that is due. Where none
    /// is due, the report changes nothing.
    pub fn report(self, outcome: Outcome) -> (run: Run<'a>)
        ensures
            run.wire() == self.wire(),
            !self.due() ==> run.outcomes() == self.outcomes() && run.failure() == self.failure()
                && run.levels() == self.levels(),
            self.due() ==> run.outcomes() == self.outcomes().push(outcome),
            self.due() ==> run.failure() == if succeeds(
                self.wire()[self.outcomes().len() as int],
                outcome,
            ) {
                None
            } else {
                Some(fault_of(self.wire()[self.outcomes().len() as int]))
            },
            self.due() ==> run.levels() == match (
                self.wire()[self.outcomes().len() as int],
                outcome,
            ) {
                (LineOp::Sample(_), Outcome::Level(level)) => self.levels().push(level),
                _ => self.levels(),
            },
    {
        proof {
            use_type_invariant(&self);
        }
        if self.failed.is_some() || self.at >= self.wire.len() {
            return self;
        }
        let ghost before = self.outcomes@;
        let ghost outcomes = before.push(outcome);
        let op = self.wire[self.at];
        let failed = match (op, outcome) {
            (LineOp::Sample(_), Outcome::Level(_)) => None,
            (LineOp::Sample(_), _) => Some(fault(&op)),
            (_, Outcome::Failed) => Some(fault(&op)),
            _ => None,
        };
        let wire = self.wire;
        let at: usize = self.at;
        let mut levels = self.levels;
        match (op, outcome) {
            (LineOp::Sample(_), Outcome::Level(level)) => levels.push(level),
            _ => {},
        }
        proof {
            lemma_levels_read_prefix(wire@, before, outcomes, at as nat);
        }
        Run { wire: wire, at: at + 1, failed: failed, levels: levels, outcomes: Ghost(outcomes) }
    }

    /// How the run ended: the levels that were read, in order, where no
    /// operation has failed; the error of the operation that failed
    /// otherwise. Every operation before the last reported one succeeded,
    /// and the run has failed exactly when the last reported one did not.
    pub fn finish(self) -> (r: Result<Vec<bool>, DisplayError>)
        ensures
            match self.failure() {
                Some(error) => r == Err::<Vec<bool>, DisplayError>(error),
                None => r is Ok && r->Ok_0@ == self.levels(),
            },
            self.outcomes().len() <= self.wire().len(),
            forall|i: int|
                0 <= i < self.outcomes().len() - 1 ==> succeeds(
                    self.wire()[i],
                    #[trigger] self.outcomes()[i],
                ),
            r is Err <==> (self.outcomes().len() >= 1 && !succeeds(
                self.wire()[self.outcomes().len() - 1],
                self.outcomes()[self.outcomes().len() - 1],
            )),
            r is Err ==> r == Err::<Vec<bool>, DisplayError>(
                fault_of(self.wire()[self.outcomes().len() - 1]),
            ),
            r is Ok ==> r->Ok_0@ == levels_read(
                self.wire(),
                self.outcomes(),
                self.outcomes().len(),
            ),
    {
        proof {
            use_type_invariant(&self);
        }
        match self.failed {
            Some(error) => Err(error),
            None => Ok(self.levels),
        }
    }
}

/// The levels read in the first `n` operations do not depend on what was
/// reported after them.
proof fn lemma_levels_read_prefix(ops: Seq<LineOp>, a: Seq<Outcome>, b: Seq<Outcome>, n: nat)
    requires
        n <= a.len() <= b.len(),
        forall|i: int| 0 <= i < n ==> a[i] == b[i],
    ensures
        levels_read(ops, a, n) == levels_read(ops, b, n),
    decreases n,
{
    if n > 0 {
        lemma_levels_read_prefix(ops, a, b, (n - 1) as nat);
    }
}

} // verus!
