//! Which way the command runs, the replay of stored events one file
//! after the other, and the line that reports a dispatch.

use vstd::prelude::*;

verus! {

/// What the command does next.
#[derive(Clone, Copy, Debug, PartialEq, Eq, Structural)]
pub enum Step {
    /// No pattern was given: assemble one event from the arguments.
    Assemble,
    /// A pattern was given and matched no file: warn, and end well.
    NothingMatched,
    /// Load the file at `index` of the `total` that matched, and send
    /// the event that it holds.
    Load { index: usize, total: usize },
    /// Every file was sent: end well.
    Finished,
    /// A file could not be read as an event: end with that error.
    Aborted,
}

/// How the work on one file ended.
#[derive(Clone, Copy, Debug, PartialEq, Eq, Structural)]
pub enum Outcome {
    /// The file held an event, and the event was handed over.
    Sent,
    /// The file could not be opened or held no event.
    Failed,
}

/// The first step: without a pattern the event is assembled; with one,
/// the files that it matched are replayed from the first, if there is any.
pub open spec fn first_of(matched: Option<usize>) -> Step {
    match matched {
        None => Step::Assemble,
        Some(total) => if total == 0 {
            Step::NothingMatched
        } else {
            Step::Load { index: 0, total }
        },
    }
}

/// The step after one file: on success the next file, or the end after
/// the last one; on failure the abort. Any other step stays as it is.
pub open spec fn next_of(step: Step, outcome: Outcome) -> Step {
    match step {
        Step::Load { index, total } => match outcome {
            Outcome::Sent => if index + 1 < total {
                Step::Load { index: (index + 1) as usize, total }
            } else {
                Step::Finished
            },
            Outcome::Failed => Step::Aborted,
        },
        _ => step,
    }
}

/// The step after a row of outcomes, reported one after the other.
pub open spec fn after_all(step: Step, outcomes: Seq<Outcome>) -> Step
    decreases outcomes.len(),
{
    if outcomes.len() == 0 {
        step
    } else {
        next_of(after_all(step, outcomes.drop_last()), outcomes.last())
    }
}

/// Decides how the command runs, from the number of files that the
/// pattern matched; `None` where no pattern was given.
pub fn first_step(matched: Option<usize>) -> (r: Step)
    ensures
        r == first_of(matched),
{
    match matched {
        None => Step::Assemble,
        Some(total) => if total == 0 {
            Step::NothingMatched
        } else {
            Step::Load { index: 0, total }
        },
    }
}

/// Decides what follows the work on one file.
pub fn next_step(step: Step, outcome: Outcome) -> (r: Step)
    ensures
        r == next_of(step, outcome),
{
    match step {
        Step::Load { index, total } => match outcome {
            Outcome::Sent => if index < total && index + 1 < total {
                Step::Load { index: index + 1, total }
            } else {
                Step::Finished
            },
            Outcome::Failed => Step::Aborted,
        },
        _ => step,
    }
}

/// Files are sent one by one in their order: after `count` files were
/// sent, the replay of `total` files is at the file `count`, or at its end
/// where that was the last.
pub proof fn lemma_replay_in_order(total: usize, outcomes: Seq<Outcome>)
    requires
        0 < total,
        outcomes.len() <= total,
        forall|i: int| 0 <= i < outcomes.len() ==> outcomes[i] == Outcome::Sent,
    ensures
        after_all(first_of(Some(total)), outcomes) == if outcomes.len() < total {
            Step::Load { index: outcomes.len() as usize, total }
        } else {
            Step::Finished
        },
    decreases outcomes.len(),
{
    if outcomes.len() > 0 {
        lemma_replay_in_order(total, outcomes.drop_last());
    }
}

/// The first failure ends the replay: once a file failed, the replay is
/// aborted and stays so, whatever is reported after it.
pub proof fn lemma_failure_aborts(total: usize, outcomes: Seq<Outcome>, failed: int)
    requires
        0 <= failed < outcomes.len(),
        failed < total,
        outcomes[failed] == Outcome::Failed,
        forall|i: int| 0 <= i < failed ==> outcomes[i] == Outcome::Sent,
    ensures
        after_all(first_of(Some(total)), outcomes) == Step::Aborted,
    decreases outcomes.len(),
{
    let front = outcomes.drop_last();
    if failed == outcomes.len() - 1 {
        lemma_replay_in_order(total, front);
    } else {
        lemma_failure_aborts(total, front, failed);
    }
}

/// Where nothing is to be replayed, nothing is ever loaded: the steps
/// `Assemble`, `NothingMatched`, `Finished` and `Aborted` stay as they are.
pub proof fn lemma_end_stays(step: Step, outcomes: Seq<Outcome>)
    requires
        !(step is Load),
    ensures
        after_all(step, outcomes) == step,
    decreases outcomes.len(),
{
    if outcomes.len() > 0 {
        lemma_end_stays(step, outcomes.drop_last());
    }
}

/// The line that reports one dispatch: the file that the event came
/// from, where it came from one, and the identifier of the dispatch.
pub open spec fn report_of(source: Option<Seq<char>>, id: Seq<char>) -> Seq<char> {
    match source {
        Some(path) => "Event from file "@ + path + " dispatched: "@ + id,
        None => "Event dispatched: "@ + id,
    }
}

/// Writes the line that reports one dispatch. `source` is the path of the
/// file that held the event, `None` for an event assembled by hand.
pub fn dispatch_report(source: Option<&str>, id: &str) -> (r: String)
    ensures
        r@ == report_of(
            match source {
                Some(path) => Some(path@),
                None => None,
            },
            id@,
        ),
{
    match source {
        Some(path) => "Event from file ".to_owned().concat(path).concat(" dispatched: ").concat(id),
        None => "Event dispatched: ".to_owned().concat(id),
    }
}

} // verus!
