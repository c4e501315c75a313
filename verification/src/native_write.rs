//! The steps of placing a native file list on the clipboard, and who frees what when
//! one of them fails.

use vstd::prelude::*;
use crate::dispatch::{WriteError, WriteFault};

verus! {

/// How the step that a driver was told to take has ended: well, or with a failure and
/// the message of the operating system.
#[derive(Debug, Clone, PartialEq, Eq)]
pub enum StepResult {
    Done,
    Failed(String),
}

/// What a `StepResult` is.
pub enum StepEnd {
    Done,
    Failed(Seq<char>),
}

impl View for StepResult {
    type V = StepEnd;

    open spec fn view(&self) -> StepEnd {
        match self {
            StepResult::Done => StepEnd::Done,
            StepResult::Failed(message) => StepEnd::Failed(message@),
        }
    }
}

/// A step in writing a native file list.
#[derive(Debug, Clone, Copy, PartialEq, Eq, Structural)]
pub enum NativeAction {
    /// Empty the clipboard, and allocate a movable, zeroed memory block for the
    /// file-drop block.
    Allocate,
    /// Lock the memory block, to get at its bytes.
    Lock,
    /// Copy the file-drop block into the memory, unlock it, and hand it to the
    /// clipboard.
    Place,
    /// Free the memory block.
    Free,
    /// Close the clipboard.
    CloseClipboard,
}

/// How far a native file-list write has come. Each stage waits for the end of one step:
/// of opening the clipboard, of allocating, locking, placing, freeing and closing. The
/// last two remember how the write ends.
#[derive(Debug)]
pub enum WriteStage {
    Opening,
    Allocating,
    Locking,
    Placing,
    Freeing(WriteError),
    Closing(Result<(), WriteError>),
}

/// What a `WriteStage` is.
pub enum Stage {
    Opening,
    Allocating,
    Locking,
    Placing,
    Freeing(WriteFault),
    Closing(Result<(), WriteFault>),
}

/// What the result of a write is.
pub open spec fn verdict(result: Result<(), WriteError>) -> Result<(), WriteFault> {
    match result {
        Ok(()) => Ok(()),
        Err(e) => Err(e@),
    }
}

impl View for WriteStage {
    type V = Stage;

    open spec fn view(&self) -> Stage {
        match self {
            WriteStage::Opening => Stage::Opening,
            WriteStage::Allocating => Stage::Allocating,
            WriteStage::Locking => Stage::Locking,
            WriteStage::Placing => Stage::Placing,
            WriteStage::Freeing(e) => Stage::Freeing(e@),
            WriteStage::Closing(result) => Stage::Closing(verdict(*result)),
        }
    }
}

/// What the driver of a native file-list write does next: one more step, or return.
#[derive(Debug)]
pub enum WriteStep {
    Continue(WriteStage, NativeAction),
    Finish(Result<(), WriteError>),
}

/// What a `WriteStep` is.
pub enum Turn {
    Continue(Stage, NativeAction),
    Finish(Result<(), WriteFault>),
}

impl View for WriteStep {
    type V = Turn;

    open spec fn view(&self) -> Turn {
        match self {
            WriteStep::Continue(stage, action) => Turn::Continue(stage@, *action),
            WriteStep::Finish(result) => Turn::Finish(verdict(*result)),
        }
    }
}

/// What follows the end of a step.
///
/// The steps follow one another while they end well: open, allocate, lock, place,
/// close. A clipboard that does not open ends the write at once. After a later failure
/// the memory block is freed if there is one, and the clipboard is closed. The ends of
/// freeing and closing are not looked at.
pub open spec fn next(stage: Stage, end: StepEnd) -> Turn {
    match stage {
        Stage::Opening => match end {
            StepEnd::Done => Turn::Continue(Stage::Allocating, NativeAction::Allocate),
            StepEnd::Failed(_) => Turn::Finish(Err(WriteFault::AccessError)),
        },
        Stage::Allocating => match end {
            StepEnd::Done => Turn::Continue(Stage::Locking, NativeAction::Lock),
            StepEnd::Failed(message) => Turn::Continue(
                Stage::Closing(Err(WriteFault::AllocationError(message))),
                NativeAction::CloseClipboard,
            ),
        },
        Stage::Locking => match end {
            StepEnd::Done => Turn::Continue(Stage::Placing, NativeAction::Place),
            StepEnd::Failed(_) => Turn::Continue(
                Stage::Freeing(WriteFault::LockError),
                NativeAction::Free,
            ),
        },
        Stage::Placing => match end {
            StepEnd::Done => Turn::Continue(Stage::Closing(Ok(())), NativeAction::CloseClipboard),
            StepEnd::Failed(message) => Turn::Continue(
                Stage::Freeing(WriteFault::PlacementError(message)),
                NativeAction::Free,
            ),
        },
        Stage::Freeing(fault) => Turn::Continue(
            Stage::Closing(Err(fault)),
            NativeAction::CloseClipboard,
        ),
        Stage::Closing(result) => Turn::Finish(result),
    }
}

/// Takes the end of the step that the driver took, and tells it what follows. The
/// driver starts by opening the clipboard, in the stage `Opening`.
pub fn advance(stage: WriteStage, result: StepResult) -> (out: WriteStep)
    ensures
        out@ == next(stage@, result@),
{
    match stage {
        WriteStage::Opening => match result {
            StepResult::Done => WriteStep::Continue(WriteStage::Allocating, NativeAction::Allocate),
            StepResult::Failed(_) => WriteStep::Finish(Err(WriteError::AccessError)),
        },
        WriteStage::Allocating => match result {
            StepResult::Done => WriteStep::Continue(WriteStage::Locking, NativeAction::Lock),
            StepResult::Failed(message) => WriteStep::Continue(
                WriteStage::Closing(Err(WriteError::AllocationError(message))),
                NativeAction::CloseClipboard,
            ),
        },
        WriteStage::Locking => match result {
            StepResult::Done => WriteStep::Continue(WriteStage::Placing, NativeAction::Place),
            StepResult::Failed(_) => WriteStep::Continue(
                WriteStage::Freeing(WriteError::LockError),
                NativeAction::Free,
            ),
        },
        WriteStage::Placing => match result {
            StepResult::Done => WriteStep::Continue(
                WriteStage::Closing(Ok(())),
                NativeAction::CloseClipboard,
            ),
            StepResult::Failed(message) => WriteStep::Continue(
                WriteStage::Freeing(WriteError::PlacementError(message)),
                NativeAction::Free,
            ),
        },
        WriteStage::Freeing(error) => WriteStep::Continue(
            WriteStage::Closing(Err(error)),
            NativeAction::CloseClipboard,
        ),
        WriteStage::Closing(result) => WriteStep::Finish(result),
    }
}

/// How the operating system answers the steps of one write: whether the clipboard
/// opens, whether memory is had and locked, and whether the clipboard takes the block;
/// with its message where allocating or placing fails.
pub struct Conditions {
    pub opens: bool,
    pub allocates: Result<(), Seq<char>>,
    pub locks: bool,
    pub places: Result<(), Seq<char>>,
}

impl Conditions {
    /// The end of the step that a stage waits for.
    pub open spec fn end_of(self, stage: Stage) -> StepEnd {
        match stage {
            Stage::Opening => if self.opens {
                StepEnd::Done
            } else {
                StepEnd::Failed(Seq::empty())
            },
            Stage::Allocating => match self.allocates {
                Ok(()) => StepEnd::Done,
                Err(message) => StepEnd::Failed(message),
            },
            Stage::Locking => if self.locks {
                StepEnd::Done
            } else {
                StepEnd::Failed(Seq::empty())
            },
            Stage::Placing => match self.places {
                Ok(()) => StepEnd::Done,
                Err(message) => StepEnd::Failed(message),
            },
            _ => StepEnd::Done,
        }
    }

    /// Whether a memory block is had.
    pub open spec fn allocated(self) -> bool {
        self.opens && self.allocates is Ok
    }

    /// Whether the clipboard takes the memory block, and owns it from then on.
    pub open spec fn placed(self) -> bool {
        self.allocated() && self.locks && self.places is Ok
    }

    /// How the write ends: well where every step does, and else with the failure of
    /// the first step that fails.
    pub open spec fn result(self) -> Result<(), WriteFault> {
        if !self.opens {
            Err(WriteFault::AccessError)
        } else if self.allocates is Err {
            Err(WriteFault::AllocationError(self.allocates->Err_0))
        } else if !self.locks {
            Err(WriteFault::LockError)
        } else if self.places is Err {
            Err(WriteFault::PlacementError(self.places->Err_0))
        } else {
            Ok(())
        }
    }
}

/// How many steps are left at most, from a stage on.
pub open spec fn steps_left(stage: Stage) -> nat {
    match stage {
        Stage::Opening => 6,
        Stage::Allocating => 5,
        Stage::Locking => 4,
        Stage::Placing => 3,
        Stage::Freeing(_) => 2,
        Stage::Closing(_) => 1,
    }
}

/// The steps that the driver is told to take from a stage on, in order, under the
/// given conditions.
pub open spec fn steps_from(stage: Stage, given: Conditions) -> Seq<NativeAction>
    decreases steps_left(stage),
{
    match next(stage, given.end_of(stage)) {
        Turn::Continue(then, action) => seq![action] + steps_from(then, given),
        Turn::Finish(_) => Seq::empty(),
    }
}

/// How the write ends from a stage on, under the given conditions.
pub open spec fn result_from(stage: Stage, given: Conditions) -> Result<(), WriteFault>
    decreases steps_left(stage),
{
    match next(stage, given.end_of(stage)) {
        Turn::Continue(then, _) => result_from(then, given),
        Turn::Finish(result) => result,
    }
}

/// The steps of a whole write, after opening the clipboard: allocate, lock, place and
/// close while all goes well; after a failure, free the block if there is one and the
/// clipboard has not taken it, and close the clipboard if it was opened.
pub proof fn lemma_write_script(given: Conditions)
    ensures
        result_from(Stage::Opening, given) == given.result(),
        steps_from(Stage::Opening, given) == if !given.opens {
            Seq::<NativeAction>::empty()
        } else if given.allocates is Err {
            seq![NativeAction::Allocate, NativeAction::CloseClipboard]
        } else if !given.locks {
            seq![
                NativeAction::Allocate,
                NativeAction::Lock,
                NativeAction::Free,
                NativeAction::CloseClipboard,
            ]
        } else if given.places is Err {
            seq![
                NativeAction::Allocate,
                NativeAction::Lock,
                NativeAction::Place,
                NativeAction::Free,
                NativeAction::CloseClipboard,
            ]
        } else {
            seq![
                NativeAction::Allocate,
                NativeAction::Lock,
                NativeAction::Place,
                NativeAction::CloseClipboard,
            ]
        },
{
    reveal_with_fuel(steps_from, 7);
    reveal_with_fuel(result_from, 7);
    let steps = steps_from(Stage::Opening, given);
    if !given.opens {
        assert(steps =~= Seq::<NativeAction>::empty());
    } else if given.allocates is Err {
        assert(steps =~= seq![NativeAction::Allocate, NativeAction::CloseClipboard]);
    } else if !given.locks {
        assert(steps =~= seq![
            NativeAction::Allocate,
            NativeAction::Lock,
            NativeAction::Free,
            NativeAction::CloseClipboard,
        ]);
    } else if given.places is Err {
        assert(steps =~= seq![
            NativeAction::Allocate,
            NativeAction::Lock,
            NativeAction::Place,
            NativeAction::Free,
            NativeAction::CloseClipboard,
        ]);
    } else {
        assert(steps =~= seq![
            NativeAction::Allocate,
            NativeAction::Lock,
            NativeAction::Place,
            NativeAction::CloseClipboard,
        ]);
    }
}

/// The memory block is freed exactly when there is one and the clipboard has not taken
/// it, and then once; the clipboard is closed exactly when it was opened, once, as the
/// last step.
pub proof fn lemma_block_and_clipboard_released(given: Conditions)
    ensures
        steps_from(Stage::Opening, given).contains(NativeAction::Free) <==> given.allocated()
            && !given.placed(),
        steps_from(Stage::Opening, given).filter(|a: NativeAction| a == NativeAction::Free).len()
            <= 1,
        steps_from(Stage::Opening, given).contains(NativeAction::CloseClipboard)
            <==> given.opens,
        given.opens ==> steps_from(Stage::Opening, given).last() == NativeAction::CloseClipboard,
{
    lemma_write_script(given);
    let steps = steps_from(Stage::Opening, given);
    let is_free = |a: NativeAction| a == NativeAction::Free;
    if steps.contains(NativeAction::Free) {
        let i = choose|i: int| 0 <= i < steps.len() && steps[i] == NativeAction::Free;
        assert(steps[i] == NativeAction::Free);
    }
    if given.allocated() && !given.placed() {
        if !given.locks {
            assert(steps[2] == NativeAction::Free);
        } else {
            assert(steps[3] == NativeAction::Free);
        }
    }
    if steps.contains(NativeAction::CloseClipboard) {
        let i = choose|i: int| 0 <= i < steps.len() && steps[i] == NativeAction::CloseClipboard;
        assert(steps[i] == NativeAction::CloseClipboard);
    }
    if given.opens {
        assert(steps[steps.len() - 1] == NativeAction::CloseClipboard);
    }
    assert(steps.filter(is_free).len() <= 1) by {
        lemma_filter_count(steps, is_free);
    }
}

/// A sequence in which no two steps meet `pred` filters down to one step at most.
proof fn lemma_filter_count(steps: Seq<NativeAction>, pred: spec_fn(NativeAction) -> bool)
    requires
        forall|i: int, j: int| 0 <= i < j < steps.len() ==> !(pred(steps[i]) && pred(steps[j])),
    ensures
        steps.filter(pred).len() <= 1,
    decreases steps.len(),
{
    reveal(Seq::filter);
    if steps.len() > 0 {
        let front = steps.drop_last();
        lemma_filter_count(front, pred);
        if pred(steps.last()) {
            assert forall|i: int| 0 <= i < front.len() implies !pred(front[i]) by {
                assert(front[i] == steps[i]);
            }
            lemma_filter_none(front, pred);
        }
    }
}

/// A sequence with no step that meets `pred` filters down to nothing.
proof fn lemma_filter_none(steps: Seq<NativeAction>, pred: spec_fn(NativeAction) -> bool)
    requires
        forall|i: int| 0 <= i < steps.len() ==> !pred(steps[i]),
    ensures
        steps.filter(pred).len() == 0,
    decreases steps.len(),
{
    reveal(Seq::filter);
    if steps.len() > 0 {
        let front = steps.drop_last();
        assert forall|i: int| 0 <= i < front.len() implies !pred(front[i]) by {
            assert(front[i] == steps[i]);
        }
        lemma_filter_none(front, pred);
    }
}

} // verus!
