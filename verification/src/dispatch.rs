//! The write-back dispatcher: what a write request places on the clipboard.

use vstd::prelude::*;
use crate::file_list::{
    decoded_file_list, drop_block, encode_file_list, lemma_file_list_round_trip, storable,
};
use crate::image_codec::{base64_to_image, decoded_image, DecodeError, DecodeFailure, PixelGrid, RawImage};
use crate::classify::{PathStatus, SnapshotView};
use crate::kind::{lemma_named_name, ContentKind};
use crate::text::{is_line_list, join_lines, lemma_lines_of_join, lines, split_lines, texts};

verus! {

/// Why content could not be written to the clipboard. Those that come from the
/// operating system carry its message.
#[derive(Debug, Clone, PartialEq, Eq)]
pub enum WriteError {
    /// The clipboard could not be opened.
    AccessError,
    /// No memory block could be had for a file list.
    AllocationError(String),
    /// The memory block of a file list could not be locked.
    LockError,
    /// An image payload could not be read.
    DecodeError(DecodeError),
    /// A file list was asked for where the platform has none.
    UnsupportedPlatform,
    /// The clipboard did not take the content.
    PlacementError(String),
}

impl WriteError {
    /// The words for this error: those of the operating system or of the decoder where
    /// they gave some.
    pub open spec fn text(&self) -> Seq<char> {
        match self {
            WriteError::AccessError => "无法打开剪贴板"@,
            WriteError::AllocationError(message) => message@,
            WriteError::LockError => "内存分配失败"@,
            WriteError::DecodeError(e) => e.text(),
            WriteError::UnsupportedPlatform => "不支持该平台的路径写入"@,
            WriteError::PlacementError(message) => message@,
        }
    }

    /// The words for this error, for a reader.
    pub fn message(&self) -> (out: String)
        ensures
            out@ == self.text(),
    {
        match self {
            WriteError::AccessError => "无法打开剪贴板".to_owned(),
            WriteError::AllocationError(message) => message.clone(),
            WriteError::LockError => "内存分配失败".to_owned(),
            WriteError::DecodeError(e) => e.message(),
            WriteError::UnsupportedPlatform => "不支持该平台的路径写入".to_owned(),
            WriteError::PlacementError(message) => message.clone(),
        }
    }
}

/// What is to be placed on the clipboard for a write request.
#[derive(Debug)]
pub enum WriteRequest {
    /// A text.
    Text(String),
    /// A list of paths, and the file-drop block that holds them.
    FileList { paths: Vec<String>, block: Vec<u8> },
    /// An image.
    Image(RawImage),
    /// Nothing: the kind is not one that is written.
    Nothing,
}

/// What a `WriteRequest` is.
pub enum Placement {
    Text(Seq<char>),
    FileList { paths: Seq<Seq<char>>, block: Seq<u8> },
    Image(PixelGrid),
    Nothing,
}

impl View for WriteRequest {
    type V = Placement;

    open spec fn view(&self) -> Placement {
        match self {
            WriteRequest::Text(s) => Placement::Text(s@),
            WriteRequest::FileList { paths, block } => Placement::FileList {
                paths: texts(paths@),
                block: block@,
            },
            WriteRequest::Image(img) => Placement::Image(img@),
            WriteRequest::Nothing => Placement::Nothing,
        }
    }
}

/// What a `WriteError` is: the failure, with the message where the operating system
/// gave one.
pub enum WriteFault {
    AccessError,
    AllocationError(Seq<char>),
    LockError,
    DecodeError(DecodeFailure),
    UnsupportedPlatform,
    PlacementError(Seq<char>),
}

impl View for WriteError {
    type V = WriteFault;

    open spec fn view(&self) -> WriteFault {
        match self {
            WriteError::AccessError => WriteFault::AccessError,
            WriteError::AllocationError(message) => WriteFault::AllocationError(message@),
            WriteError::LockError => WriteFault::LockError,
            WriteError::DecodeError(e) => WriteFault::DecodeError(e.failure()),
            WriteError::UnsupportedPlatform => WriteFault::UnsupportedPlatform,
            WriteError::PlacementError(message) => WriteFault::PlacementError(message@),
        }
    }
}

/// What is to be placed for content of the kind named `kind`: the content itself for
/// text; for a file link or a folder its lines as a list of paths, where the platform
/// has file lists; for an image the image that the payload holds; and nothing for a name
/// that is none of a kind.
pub open spec fn planned(kind: Seq<char>, content: Seq<char>, file_lists: bool) -> Result<
    Placement,
    WriteFault,
> {
    match ContentKind::named(kind) {
        None => Ok(Placement::Nothing),
        Some(ContentKind::Text) => Ok(Placement::Text(content)),
        Some(ContentKind::Image) => match decoded_image(content) {
            Ok(grid) => Ok(Placement::Image(grid)),
            Err(failure) => Err(WriteFault::DecodeError(failure)),
        },
        Some(_) => if file_lists {
            Ok(Placement::FileList { paths: lines(content), block: drop_block(lines(content)) })
        } else {
            Err(WriteFault::UnsupportedPlatform)
        },
    }
}

/// Decides what a write request places on the clipboard. `file_lists` says whether the
/// platform has native file lists.
pub fn plan_write(kind: &str, content: &str, file_lists: bool) -> (out: Result<
    WriteRequest,
    WriteError,
>)
    ensures
        out matches Ok(request) ==> planned(kind@, content@, file_lists) == Ok::<
            Placement,
            WriteFault,
        >(request@),
        out matches Err(error) ==> planned(kind@, content@, file_lists) == Err::<
            Placement,
            WriteFault,
        >(error@),
        out matches Ok(WriteRequest::Image(img)) ==> img@.valid(),
{
    match ContentKind::parse(kind) {
        None => Ok(WriteRequest::Nothing),
        Some(ContentKind::Text) => Ok(WriteRequest::Text(content.to_owned())),
        Some(ContentKind::Image) => match base64_to_image(content) {
            Ok(img) => Ok(WriteRequest::Image(img)),
            Err(e) => Err(WriteError::DecodeError(e)),
        },
        Some(_) => {
            if !file_lists {
                return Err(WriteError::UnsupportedPlatform);
            }
            let paths = split_lines(content);
            let block = encode_file_list(&paths);
            Ok(WriteRequest::FileList { paths, block })
        },
    }
}

/// Written as a file link and read back from the file-drop block, a list of paths comes
/// out as it went in, in the same order: provided each path can be stored, and the list
/// can be told from its joined lines.
pub proof fn lemma_written_paths_read_back(kind: Seq<char>, paths: Seq<Seq<char>>)
    requires
        ContentKind::named(kind) == Some(ContentKind::FileLink) || ContentKind::named(kind) == Some(
            ContentKind::Folder,
        ),
        is_line_list(paths),
        forall|i: int| 0 <= i < paths.len() ==> storable(#[trigger] paths[i]),
    ensures
        planned(kind, join_lines(paths), true) matches Ok(Placement::FileList { paths: listed, block })
            && listed == paths && decoded_file_list(block) == Some(paths),
{
    lemma_lines_of_join(paths);
    lemma_file_list_round_trip(paths);
}

/// What is reported for a file list can be written back as it is: under the name of the
/// reported kind, the reported payload places the same paths in the same order, where
/// each path can be stored and the list can be told from its joined lines.
pub proof fn lemma_reported_files_write_back(snapshot: SnapshotView, status: PathStatus)
    requires
        snapshot.files is Some,
        is_line_list(snapshot.files->0),
        forall|i: int| 0 <= i < snapshot.files->0.len() ==> storable(#[trigger] snapshot.files->0[i]),
    ensures
        snapshot.outcome(status) matches Some(reported) && planned(
            reported.kind.name(),
            reported.payload,
            true,
        ) == Ok::<Placement, WriteFault>(
            Placement::FileList {
                paths: snapshot.files->0,
                block: drop_block(snapshot.files->0),
            },
        ) && decoded_file_list(drop_block(snapshot.files->0)) == Some(snapshot.files->0),
{
    let reported = snapshot.outcome(status)->0;
    lemma_named_name(reported.kind);
    lemma_lines_of_join(snapshot.files->0);
    lemma_file_list_round_trip(snapshot.files->0);
}

/// What is reported as text can be written back as it is: under the name of that kind,
/// the reported payload places the same text.
pub proof fn lemma_reported_text_writes_back(snapshot: SnapshotView, status: PathStatus)
    requires
        snapshot.outcome(status) is Some,
        snapshot.outcome(status)->0.kind == ContentKind::Text,
    ensures
        snapshot.text is Some,
        planned(ContentKind::Text.name(), snapshot.outcome(status)->0.payload, false) == Ok::<
            Placement,
            WriteFault,
        >(Placement::Text(snapshot.text->0)),
{
    lemma_named_name(ContentKind::Text);
}

} // verus!
