//! The steps of reading the native file list from the clipboard, and the closing of the
//! clipboard on every way out.

use vstd::prelude::*;
use crate::file_list::{decode_file_list, decoded_file_list};
use crate::text::texts;

verus! {

/// A step in reading the native file list.
#[derive(Debug, Clone, Copy, PartialEq, Eq, Structural)]
pub enum ReadAction {
    /// Ask the clipboard for its file-drop block, and copy the block's bytes.
    Fetch,
    /// Close the clipboard.
    CloseClipboard,
}

/// How the step that a driver was told to take has ended: well, with the bytes of the
/// block where it was to fetch them, or not.
#[derive(Debug)]
pub enum ReadResult {
    Done,
    Block(Vec<u8>),
    Failed,
}

/// What a `ReadResult` is.
pub enum ReadEnd {
    Done,
    Block(Seq<u8>),
    Failed,
}

impl View for ReadResult {
    type V = ReadEnd;

    open spec fn view(&self) -> ReadEnd {
        match self {
            ReadResult::Done => ReadEnd::Done,
            ReadResult::Block(bytes) => ReadEnd::Block(bytes@),
            ReadResult::Failed => ReadEnd::Failed,
        }
    }
}

/// How far a read has come: it waits for the clipboard to open, for the block, or for
/// the clipboard to close, and then remembers the paths that it found.
#[derive(Debug)]
pub enum ReadStage {
    Opening,
    Fetching,
    Closing(Option<Vec<String>>),
}

/// What a list of paths is, where there is one.
pub open spec fn found(paths: Option<Vec<String>>) -> Option<Seq<Seq<char>>> {
    match paths {
        Some(list) => Some(texts(list@)),
        None => None,
    }
}

/// What a `ReadStage` is.
pub enum Progress {
    Opening,
    Fetching,
    Closing(Option<Seq<Seq<char>>>),
}

impl View for ReadStage {
    type V = Progress;

    open spec fn view(&self) -> Progress {
        match self {
            ReadStage::Opening => Progress::Opening,
            ReadStage::Fetching => Progress::Fetching,
            ReadStage::Closing(paths) => Progress::Closing(found(*paths)),
        }
    }
}

/// What the driver of a read does next: one more step, or return what was found.
#[derive(Debug)]
pub enum ReadStep {
    Continue(ReadStage, ReadAction),
    Finish(Option<Vec<String>>),
}

/// What a `ReadStep` is.
pub enum ReadTurn {
    Continue(Progress, ReadAction),
    Finish(Option<Seq<Seq<char>>>),
}

impl View for ReadStep {
    type V = ReadTurn;

    open spec fn view(&self) -> ReadTurn {
        match self {
            ReadStep::Continue(stage, action) => ReadTurn::Continue(stage@, *action),
            ReadStep::Finish(paths) => ReadTurn::Finish(found(*paths)),
        }
    }
}

/// What follows the end of a step.
///
/// A clipboard that does not open ends the read with nothing. Once it is open the block
/// is fetched, and the clipboard is closed whether there was a block or not. What is
/// found are the paths of the block, and nothing where there is no block or it cannot be
/// read.
pub open spec fn next_read(stage: Progress, end: ReadEnd) -> ReadTurn {
    match stage {
        Progress::Opening => match end {
            ReadEnd::Failed => ReadTurn::Finish(None),
            _ => ReadTurn::Continue(Progress::Fetching, ReadAction::Fetch),
        },
        Progress::Fetching => match end {
            ReadEnd::Block(bytes) => ReadTurn::Continue(
                Progress::Closing(decoded_file_list(bytes)),
                ReadAction::CloseClipboard,
            ),
            _ => ReadTurn::Continue(Progress::Closing(None), ReadAction::CloseClipboard),
        },
        Progress::Closing(paths) => ReadTurn::Finish(paths),
    }
}

/// Takes the end of the step that the driver took, and tells it what follows. The
/// driver starts by opening the clipboard, in the stage `Opening`.
pub fn advance_read(stage: ReadStage, result: ReadResult) -> (out: ReadStep)
    ensures
        out@ == next_read(stage@, result@),
{
    match stage {
        ReadStage::Opening => match result {
            ReadResult::Failed => ReadStep::Finish(None),
            _ => ReadStep::Continue(ReadStage::Fetching, ReadAction::Fetch),
        },
        ReadStage::Fetching => match result {
            ReadResult::Block(bytes) => ReadStep::Continue(
                ReadStage::Closing(decode_file_list(&bytes)),
                ReadAction::CloseClipboard,
            ),
            _ => ReadStep::Continue(ReadStage::Closing(None), ReadAction::CloseClipboard),
        },
        ReadStage::Closing(paths) => ReadStep::Finish(paths),
    }
}

/// A whole read, from the opening of the clipboard on: `opens` says whether it opens,
/// and `block` is what it holds as its file-drop block. The clipboard is closed exactly
/// when it was opened, as the last step; and the paths of the block are found exactly
/// when it was opened and holds one.
pub proof fn lemma_read_script(opens: bool, block: Option<Seq<u8>>)
    ensures
        ({
            let opened = next_read(
                Progress::Opening,
                if opens {
                    ReadEnd::Done
                } else {
                    ReadEnd::Failed
                },
            );
            let fetched = next_read(
                Progress::Fetching,
                match block {
                    Some(bytes) => ReadEnd::Block(bytes),
                    None => ReadEnd::Failed,
                },
            );
            let paths = match block {
                Some(bytes) => decoded_file_list(bytes),
                None => None,
            };
            &&& !opens ==> opened == ReadTurn::Finish(None)
            &&& opens ==> opened == ReadTurn::Continue(Progress::Fetching, ReadAction::Fetch)
            &&& fetched == ReadTurn::Continue(Progress::Closing(paths), ReadAction::CloseClipboard)
            &&& next_read(Progress::Closing(paths), ReadEnd::Done) == ReadTurn::Finish(paths)
            &&& next_read(Progress::Closing(paths), ReadEnd::Failed) == ReadTurn::Finish(paths)
        }),
{
}

} // verus!
