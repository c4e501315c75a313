//! The clipboard history as it is kept between runs.

use vstd::prelude::*;

verus! {

/// One entry of the clipboard history, as it is kept between runs.
#[derive(Debug, Clone)]
pub struct SavedClipboardItem {
    pub id: String,
    /// The name of the content's kind.
    pub kind: String,
    pub content: String,
}

} // verus!
