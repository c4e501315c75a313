//! The classifier: the one kind and payload of what the clipboard holds.

use vstd::prelude::*;
use crate::detect::{Fingerprint, Mark};
use crate::image_codec::{encoded_image, image_to_base64, PixelGrid, RawImage};
use crate::kind::ContentKind;
use crate::text::{
    has_absolute_shape, is_absolute_path, join_lines, join_paths, texts, trim, trim_text,
};

verus! {

/// What the file system says of a path.
#[derive(Debug, Clone, Copy, PartialEq, Eq, Structural)]
pub enum PathStatus {
    Missing,
    File,
    Directory,
}

/// The formats found on the clipboard at one moment: each is present or not.
#[derive(Debug)]
pub struct Snapshot {
    pub files: Option<Vec<String>>,
    pub text: Option<String>,
    pub image: Option<RawImage>,
}

/// What a `Snapshot` is.
pub struct SnapshotView {
    pub files: Option<Seq<Seq<char>>>,
    pub text: Option<Seq<char>>,
    pub image: Option<PixelGrid>,
}

impl View for Snapshot {
    type V = SnapshotView;

    open spec fn view(&self) -> SnapshotView {
        SnapshotView {
            files: match self.files {
                Some(list) => Some(texts(list@)),
                None => None,
            },
            text: match self.text {
                Some(s) => Some(s@),
                None => None,
            },
            image: match self.image {
                Some(img) => Some(img@),
                None => None,
            },
        }
    }
}

/// The format that a snapshot is read as.
pub enum Format {
    Files,
    Text,
    Image,
    Nothing,
}

/// Content as it is reported: its kind and its payload.
#[derive(Debug, Clone, PartialEq, Eq)]
pub struct ClipboardEvent {
    pub kind: ContentKind,
    pub payload: String,
}

/// Content that was classified: what to report, and the fingerprint to know it by.
#[derive(Debug)]
pub struct Classified {
    pub event: ClipboardEvent,
    pub fingerprint: Fingerprint,
}

/// What classifying a snapshot gives.
pub struct Outcome {
    pub kind: ContentKind,
    pub payload: Seq<char>,
    pub mark: Mark,
}

impl SnapshotView {
    /// The one format that counts: the file list where there is one, else the text
    /// unless it is empty, else the image.
    pub open spec fn format(self) -> Format {
        if self.files is Some {
            Format::Files
        } else if self.text is Some && self.text->0.len() > 0 {
            Format::Text
        } else if self.image is Some {
            Format::Image
        } else {
            Format::Nothing
        }
    }

    /// The path whose status decides the kind: the one path of a file list of one, and
    /// a text that has the shape of an absolute path, each without the white space at
    /// its ends.
    pub open spec fn probe(self) -> Option<Seq<char>> {
        match self.format() {
            Format::Files => if self.files->0.len() == 1 {
                Some(trim(self.files->0[0]))
            } else {
                None
            },
            Format::Text => if is_absolute_path(trim(self.text->0)) {
                Some(trim(self.text->0))
            } else {
                None
            },
            _ => None,
        }
    }

    /// The kind of the snapshot, `status` being what the file system says of the path
    /// to probe. A file list is a folder where it is one path and that path is a
    /// directory, and a file link otherwise. A text is a folder or a file link where
    /// it has the shape of an absolute path and that path exists, and text otherwise.
    pub open spec fn kind(self, status: PathStatus) -> ContentKind {
        match self.format() {
            Format::Files => if self.probe() is Some && status == PathStatus::Directory {
                ContentKind::Folder
            } else {
                ContentKind::FileLink
            },
            Format::Text => if self.probe() is Some && status == PathStatus::Directory {
                ContentKind::Folder
            } else if self.probe() is Some && status == PathStatus::File {
                ContentKind::FileLink
            } else {
                ContentKind::Text
            },
            _ => ContentKind::Image,
        }
    }

    /// What the snapshot is classified as, or `None` where it holds nothing to report:
    /// no format at all, or an image that cannot be encoded.
    ///
    /// The payload of a file list is its paths, joined by line feeds. That of a text is
    /// the text as it is, or, where the text is reported as a path, the text without the
    /// white space at its ends. That of an image is its encoding. Text and paths are
    /// known by their payload, an image by the length of its pixel buffer.
    pub open spec fn outcome(self, status: PathStatus) -> Option<Outcome> {
        let kind = self.kind(status);
        match self.format() {
            Format::Files => {
                let payload = join_lines(self.files->0);
                Some(Outcome { kind, payload, mark: Mark::Content(payload) })
            },
            Format::Text => {
                let payload = if kind == ContentKind::Text {
                    self.text->0
                } else {
                    trim(self.text->0)
                };
                Some(Outcome { kind, payload, mark: Mark::Content(payload) })
            },
            Format::Image => match encoded_image(self.image->0) {
                Some(payload) => Some(
                    Outcome { kind, payload, mark: Mark::ImageLength(self.image->0.pixels.len()) },
                ),
                None => None,
            },
            Format::Nothing => None,
        }
    }
}

impl Classified {
    /// What this is.
    pub open spec fn outcome(&self) -> Outcome {
        Outcome { kind: self.event.kind, payload: self.event.payload@, mark: self.fingerprint@ }
    }
}

/// The path that the file system is to be asked about before the snapshot can be
/// classified, if there is one.
pub fn probe_target(snapshot: &Snapshot) -> (out: Option<String>)
    ensures
        out matches Some(path) ==> snapshot@.probe() == Some(path@),
        out is None ==> snapshot@.probe() is None,
{
    match &snapshot.files {
        Some(list) => {
            if list.len() == 1 {
                Some(trim_text(list[0].as_str()))
            } else {
                None
            }
        },
        None => match &snapshot.text {
            Some(text) => {
                let path = trim_text(text.as_str());
                if text.as_str().unicode_len() > 0 && has_absolute_shape(path.as_str()) {
                    Some(path)
                } else {
                    None
                }
            },
            None => None,
        },
    }
}

/// Classifies a snapshot, `status` being what the file system says of its
/// `probe_target`; where there is no such path, `status` counts for nothing.
pub fn classify(snapshot: Snapshot, status: PathStatus) -> (out: Option<Classified>)
    ensures
        out matches Some(c) ==> snapshot@.outcome(status) == Some(c.outcome()),
        out is None ==> snapshot@.outcome(status) is None,
{
    let Snapshot { files, text, image } = snapshot;
    if let Some(list) = files {
        let kind = if list.len() == 1 && status == PathStatus::Directory {
            ContentKind::Folder
        } else {
            ContentKind::FileLink
        };
        let payload = join_paths(&list);
        let fingerprint = Fingerprint::Content(payload.clone());
        return Some(Classified { event: ClipboardEvent { kind, payload }, fingerprint });
    }
    if let Some(text) = text {
        if text.as_str().unicode_len() > 0 {
            let path = trim_text(text.as_str());
            let shaped = has_absolute_shape(path.as_str());
            let (kind, payload) = if shaped && status == PathStatus::Directory {
                (ContentKind::Folder, path)
            } else if shaped && status == PathStatus::File {
                (ContentKind::FileLink, path)
            } else {
                (ContentKind::Text, text)
            };
            let fingerprint = Fingerprint::Content(payload.clone());
            return Some(Classified { event: ClipboardEvent { kind, payload }, fingerprint });
        }
    }
    if let Some(img) = image {
        let length = img.bytes.len();
        return match image_to_base64(img) {
            Some(payload) => Some(
                Classified {
                    event: ClipboardEvent { kind: ContentKind::Image, payload },
                    fingerprint: Fingerprint::ImageLength(length),
                },
            ),
            None => None,
        };
    }
    None
}

} // verus!
