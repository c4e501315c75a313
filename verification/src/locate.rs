//! Showing a path of a payload in the file manager.

use vstd::prelude::*;
use crate::classify::PathStatus;
use crate::text::{lines, split_lines, texts};

verus! {

/// Why nothing could be shown in the file manager.
#[derive(Debug, Clone, Copy, PartialEq, Eq, Structural)]
pub enum LocateError {
    /// The payload holds no path, or its first path does not exist.
    NotFound,
}

impl LocateError {
    /// The words for this error, for a reader.
    pub fn message(&self) -> (out: String)
        ensures
            out@ == "文件不存在"@,
    {
        "文件不存在".to_owned()
    }
}

/// The first path of a payload of paths, if it holds one.
pub open spec fn first_line(payload: Seq<char>) -> Option<Seq<char>> {
    if lines(payload).len() > 0 {
        Some(lines(payload)[0])
    } else {
        None
    }
}

/// The first path of a payload of paths, if it holds one: the path that the file
/// manager is to select.
pub fn first_path(payload: &str) -> (out: Option<String>)
    ensures
        out matches Some(path) ==> first_line(payload@) == Some(path@),
        out is None ==> first_line(payload@) is None,
{
    let mut list = split_lines(payload);
    if list.len() == 0 {
        None
    } else {
        let ghost all = texts(list@);
        let path = list.swap_remove(0);
        assert(path@ == all[0]);
        Some(path)
    }
}

/// The path to select in the file manager for a payload of paths: its first path,
/// `status` being what the file system says of it. Fails where the payload holds no
/// path and where the first path does not exist.
pub fn locate(payload: &str, status: PathStatus) -> (out: Result<String, LocateError>)
    ensures
        out matches Ok(path) ==> first_line(payload@) == Some(path@) && status
            != PathStatus::Missing,
        out is Err ==> first_line(payload@) is None || status == PathStatus::Missing,
{
    match first_path(payload) {
        Some(path) => {
            if status == PathStatus::Missing {
                Err(LocateError::NotFound)
            } else {
                Ok(path)
            }
        },
        None => Err(LocateError::NotFound),
    }
}

} // verus!
