//! The kinds of content, and their names.

use vstd::prelude::*;
use crate::text::same_text;

verus! {

/// What a clipboard change holds.
#[derive(Debug, Clone, Copy, PartialEq, Eq, Structural)]
pub enum ContentKind {
    Text,
    FileLink,
    Folder,
    Image,
}

impl ContentKind {
    /// The name under which a kind is reported and asked for.
    pub open spec fn name(self) -> Seq<char> {
        match self {
            ContentKind::Text => "text"@,
            ContentKind::FileLink => "file-link"@,
            ContentKind::Folder => "folder"@,
            ContentKind::Image => "image"@,
        }
    }

    /// The kind of that name, if it is the name of one.
    pub open spec fn named(name: Seq<char>) -> Option<ContentKind> {
        if name == "text"@ {
            Some(ContentKind::Text)
        } else if name == "file-link"@ {
            Some(ContentKind::FileLink)
        } else if name == "folder"@ {
            Some(ContentKind::Folder)
        } else if name == "image"@ {
            Some(ContentKind::Image)
        } else {
            None
        }
    }

    /// The name under which this kind is reported and asked for.
    pub fn as_str(&self) -> (out: &'static str)
        ensures
            out@ == self.name(),
    {
        match self {
            ContentKind::Text => "text",
            ContentKind::FileLink => "file-link",
            ContentKind::Folder => "folder",
            ContentKind::Image => "image",
        }
    }

    /// The kind of that name, if it is the name of one.
    pub fn parse(name: &str) -> (out: Option<ContentKind>)
        ensures
            out == ContentKind::named(name@),
    {
        if same_text(name, "text") {
            Some(ContentKind::Text)
        } else if same_text(name, "file-link") {
            Some(ContentKind::FileLink)
        } else if same_text(name, "folder") {
            Some(ContentKind::Folder)
        } else if same_text(name, "image") {
            Some(ContentKind::Image)
        } else {
            None
        }
    }
}

/// The four names differ, so that a kind is found again by its name.
pub proof fn lemma_named_name(kind: ContentKind)
    ensures
        ContentKind::named(kind.name()) == Some(kind),
{
    reveal_strlit("text");
    reveal_strlit("file-link");
    reveal_strlit("folder");
    reveal_strlit("image");
    assert("text"@.len() == 4);
    assert("file-link"@.len() == 9);
    assert("folder"@.len() == 6);
    assert("image"@.len() == 5);
}

} // verus!
