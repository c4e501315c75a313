//! The rules of the file search: what is looked for, which entries are visited, where
//! the search starts and when it stops.

use vstd::prelude::*;
use vstd::string::StringExecFns;
use crate::classify::PathStatus;
use crate::text::{chars_of, same_text, trim, trim_text};

verus! {

/// One file or directory that a search has found.
#[derive(Debug, Clone)]
pub struct FileResult {
    pub name: String,
    pub path: String,
    pub is_dir: bool,
}

/// What a `FileResult` is.
pub struct Entry {
    pub name: Seq<char>,
    pub path: Seq<char>,
    pub is_dir: bool,
}

impl View for FileResult {
    type V = Entry;

    open spec fn view(&self) -> Entry {
        Entry { name: self.name@, path: self.path@, is_dir: self.is_dir }
    }
}

/// The most results that a search gathers.
pub const MAX_RESULTS: usize = 300;

/// How deep a search goes below each directory of a drive's root.
pub const ROOT_DEPTH: usize = 6;

/// How deep the first pass of a search goes below an ordinary directory.
pub const FIRST_PASS_DEPTH: usize = 4;

/// How deep the second pass goes below each directory of the second and third level.
pub const SECOND_PASS_DEPTH: usize = 8;

/// Whether a name is one of the directories that hold nothing worth a search: those of
/// the system, of tools, and of builds.
pub open spec fn is_skipped(name: Seq<char>) -> bool {
    ||| name == "$RECYCLE.BIN"@
    ||| name == "System Volume Information"@
    ||| name == "WindowsApps"@
    ||| name == "$Windows.~BT"@
    ||| name == "Windows"@
    ||| name == "ProgramData"@
    ||| name == "node_modules"@
    ||| name == ".git"@
    ||| name == ".idea"@
    ||| name == ".vscode"@
    ||| name == "__pycache__"@
    ||| name == "target"@
    ||| name == "build"@
    ||| name == "dist"@
    ||| name == ".cache"@
    ||| name == "cache"@
}

/// Whether a search looks at an entry of this name, and below it: it does unless the
/// name starts with a dot or a dollar sign, or is skipped.
pub open spec fn is_visited(name: Seq<char>) -> bool {
    !(name.len() > 0 && (name[0] == '.' || name[0] == '$')) && !is_skipped(name)
}

/// Whether a search of a drive's root goes into a directory of this name: it does where
/// it would look at the entry at all, but for the directories that hold programs.
pub open spec fn is_searched_from_root(name: Seq<char>) -> bool {
    is_visited(name) && name != "Program Files"@ && name != "Program Files (x86)"@
}

/// Whether a path names the root of a drive or of the file system: it ends in a colon
/// and a backslash, or is one slash.
pub open spec fn is_root(path: Seq<char>) -> bool {
    (path.len() >= 2 && path[path.len() - 2] == ':' && path[path.len() - 1] == '\\') || path
        == seq!['/']
}

/// Whether `needle` stands in `hay` at the position `at`.
pub open spec fn occurs_at(hay: Seq<char>, needle: Seq<char>, at: int) -> bool {
    0 <= at && at + needle.len() <= hay.len() && hay.subrange(at, at + needle.len()) == needle
}

/// Whether `needle` stands somewhere in `hay`.
pub open spec fn contains_text(hay: Seq<char>, needle: Seq<char>) -> bool {
    exists|at: int| occurs_at(hay, needle, at)
}

/// The text in lower case, as `str::to_lowercase` gives it.
pub uninterp spec fn lowercase(s: Seq<char>) -> Seq<char>;

/// The message with which the regex compiler refuses a pattern, or `None` where it
/// accepts it; `fold` says whether case is to be ignored.
pub uninterp spec fn pattern_error(pattern: Seq<char>, fold: bool) -> Option<Seq<char>>;

/// Whether a pattern that the regex compiler accepts matches somewhere in a text.
pub uninterp spec fn pattern_matches(pattern: Seq<char>, fold: bool, text: Seq<char>) -> bool;

/// `str::to_lowercase`. Claims: the outcome is `lowercase` of the text.
#[verifier::external_body]
fn to_lowercase(s: &str) -> (out: String)
    ensures
        out@ == lowercase(s@),
{
    s.to_lowercase()
}

/// `RegexBuilder::new`, `case_insensitive`, `unicode` and `build`. Claims: the pattern
/// is refused exactly where `pattern_error` says, with that message.
#[verifier::external_body]
fn check_pattern(pattern: &str, fold: bool) -> (out: Result<(), String>)
    ensures
        out is Ok ==> pattern_error(pattern@, fold) is None,
        out matches Err(message) ==> pattern_error(pattern@, fold) == Some(message@),
{
    match regex::RegexBuilder::new(pattern).case_insensitive(fold).unicode(true).build() {
        Ok(_) => Ok(()),
        Err(e) => Err(e.to_string()),
    }
}

/// `RegexBuilder::build` as in `check_pattern`, then `Regex::is_match`. Claims: a
/// pattern is refused exactly where `pattern_error` says, and for one that is accepted
/// the outcome is `pattern_matches`.
#[verifier::external_body]
fn match_pattern(pattern: &str, fold: bool, text: &str) -> (out: Option<bool>)
    ensures
        out is None <==> pattern_error(pattern@, fold) is Some,
        out matches Some(found) ==> found == pattern_matches(pattern@, fold, text@),
{
    match regex::RegexBuilder::new(pattern).case_insensitive(fold).unicode(true).build() {
        Ok(re) => Some(re.is_match(text)),
        Err(_) => None,
    }
}

/// Whether a name is one of the directories that hold nothing worth a search.
pub fn is_skipped_name(name: &str) -> (out: bool)
    ensures
        out == is_skipped(name@),
{
    same_text(name, "$RECYCLE.BIN") || same_text(name, "System Volume Information") || same_text(
        name,
        "WindowsApps",
    ) || same_text(name, "$Windows.~BT") || same_text(name, "Windows") || same_text(
        name,
        "ProgramData",
    ) || same_text(name, "node_modules") || same_text(name, ".git") || same_text(name, ".idea")
        || same_text(name, ".vscode") || same_text(name, "__pycache__") || same_text(
        name,
        "target",
    ) || same_text(name, "build") || same_text(name, "dist") || same_text(name, ".cache")
        || same_text(name, "cache")
}

/// Whether a search looks at an entry of this name, and below it.
pub fn should_visit_entry(name: &str) -> (out: bool)
    ensures
        out == is_visited(name@),
{
    let chars = chars_of(name);
    if chars.len() > 0 && (chars[0] == '.' || chars[0] == '$') {
        return false;
    }
    !is_skipped_name(name)
}

/// Whether a search of a drive's root goes into a directory of this name.
pub fn should_search_from_root(name: &str) -> (out: bool)
    ensures
        out == is_searched_from_root(name@),
{
    should_visit_entry(name) && !same_text(name, "Program Files") && !same_text(
        name,
        "Program Files (x86)",
    )
}

/// Whether a path names the root of a drive or of the file system.
pub fn is_root_drive(path: &str) -> (out: bool)
    ensures
        out == is_root(path@),
{
    let chars = chars_of(path);
    let n = chars.len();
    if n >= 2 && chars[n - 2] == ':' && chars[n - 1] == '\\' {
        return true;
    }
    let slash = n == 1 && chars[0] == '/';
    proof {
        if slash {
            assert(chars@ =~= seq!['/']);
        }
    }
    slash
}

/// Whether `needle` stands in `hay` at the position `at`.
fn matches_at(hay: &Vec<char>, needle: &Vec<char>, at: usize) -> (out: bool)
    requires
        at + needle.len() <= hay.len(),
    ensures
        out == occurs_at(hay@, needle@, at as int),
{
    let mut i: usize = 0;
    while i < needle.len()
        invariant
            at + needle.len() <= hay.len(),
            i <= needle.len(),
            forall|j: int| 0 <= j < i ==> hay@[at + j] == needle@[j],
        decreases needle.len() - i,
    {
        if hay[at + i] != needle[i] {
            proof {
                let part = hay@.subrange(at as int, at + needle.len());
                assert(part[i as int] != needle@[i as int]);
            }
            return false;
        }
        i += 1;
    }
    assert(hay@.subrange(at as int, at + needle.len()) =~= needle@);
    true
}

/// Whether `needle` stands somewhere in `hay`.
pub fn contains(hay: &str, needle: &str) -> (out: bool)
    ensures
        out == contains_text(hay@, needle@),
{
    let text = chars_of(hay);
    let part = chars_of(needle);
    if part.len() > text.len() {
        return false;
    }
    let last: usize = text.len() - part.len();
    let mut at: usize = 0;
    loop
        invariant
            text@ == hay@,
            part@ == needle@,
            last == text.len() - part.len(),
            part.len() <= text.len(),
            at <= last,
            forall|k: int| 0 <= k < at ==> !occurs_at(text@, part@, k),
        decreases last - at,
    {
        if matches_at(&text, &part, at) {
            return true;
        }
        if at == last {
            return false;
        }
        at += 1;
    }
}

/// What a search looks for in the names of files and directories.
#[derive(Debug, Clone)]
pub struct NameFilter {
    /// The text to find, or the pattern to match.
    pub query: String,
    /// Whether the query is a regular expression.
    pub is_regex: bool,
    /// Whether upper and lower case differ.
    pub match_case: bool,
}

/// What a `NameFilter` is.
pub struct Filter {
    pub query: Seq<char>,
    pub is_regex: bool,
    pub match_case: bool,
}

impl View for NameFilter {
    type V = Filter;

    open spec fn view(&self) -> Filter {
        Filter { query: self.query@, is_regex: self.is_regex, match_case: self.match_case }
    }
}

impl Filter {
    /// Whether a name passes the filter. A pattern must match somewhere in the name, and
    /// one that the compiler refuses matches nothing. A text must stand in the name: as
    /// it is where case counts, and else in the name in lower case.
    pub open spec fn accepts(self, name: Seq<char>) -> bool {
        if self.is_regex {
            pattern_error(self.query, !self.match_case) is None && pattern_matches(
                self.query,
                !self.match_case,
                name,
            )
        } else if self.match_case {
            contains_text(name, self.query)
        } else {
            contains_text(lowercase(name), self.query)
        }
    }
}

impl NameFilter {
    /// Whether a name passes the filter.
    pub fn matches(&self, name: &str) -> (out: bool)
        ensures
            out == self@.accepts(name@),
    {
        if self.is_regex {
            match match_pattern(self.query.as_str(), !self.match_case, name) {
                Some(found) => found,
                None => false,
            }
        } else if self.match_case {
            contains(name, self.query.as_str())
        } else {
            let lowered = to_lowercase(name);
            contains(lowered.as_str(), self.query.as_str())
        }
    }
}

/// How a search goes through the directories below its root.
#[derive(Debug, Clone, Copy, PartialEq, Eq, Structural)]
pub enum SearchStrategy {
    /// Below a drive's root: each directory that is searched from there, to
    /// `ROOT_DEPTH`.
    FromRoot,
    /// Below an ordinary directory: a first pass to `FIRST_PASS_DEPTH`, and then, where
    /// it found too little, a second one to `SECOND_PASS_DEPTH` below each directory of
    /// the second and third level.
    Layered,
}

/// A search that is ready to run.
#[derive(Debug, Clone)]
pub struct SearchRequest {
    pub root: String,
    pub filter: NameFilter,
    pub strategy: SearchStrategy,
}

/// What a `SearchRequest` is.
pub struct Request {
    pub root: Seq<char>,
    pub filter: Filter,
    pub strategy: SearchStrategy,
}

impl View for SearchRequest {
    type V = Request;

    open spec fn view(&self) -> Request {
        Request { root: self.root@, filter: self.filter@, strategy: self.strategy }
    }
}

/// Why a search cannot run.
#[derive(Debug, Clone, PartialEq, Eq)]
pub enum SearchError {
    /// The directory to search does not exist; with the path as it was asked for.
    RootMissing(String),
    /// The query is no regular expression; with the compiler's message.
    InvalidPattern(String),
}

/// What a `SearchError` is.
pub enum SearchFault {
    RootMissing(Seq<char>),
    InvalidPattern(Seq<char>),
}

impl View for SearchError {
    type V = SearchFault;

    open spec fn view(&self) -> SearchFault {
        match self {
            SearchError::RootMissing(path) => SearchFault::RootMissing(path@),
            SearchError::InvalidPattern(message) => SearchFault::InvalidPattern(message@),
        }
    }
}

impl SearchError {
    /// The words for this error.
    pub open spec fn text(&self) -> Seq<char> {
        match self {
            SearchError::RootMissing(path) => "路径不存在: "@ + path@,
            SearchError::InvalidPattern(message) => "正则语法错误: "@ + message@,
        }
    }

    /// The words for this error, for a reader.
    pub fn message(&self) -> (out: String)
        ensures
            out@ == self.text(),
    {
        match self {
            SearchError::RootMissing(path) => String::from_str("路径不存在: ").concat(
                path.as_str(),
            ),
            SearchError::InvalidPattern(message) => String::from_str("正则语法错误: ").concat(
                message.as_str(),
            ),
        }
    }
}

/// The directory that a search starts from: the one asked for, or `default_root` where
/// none is.
pub open spec fn root_of(search_path: Seq<char>, default_root: Seq<char>) -> Seq<char> {
    if search_path.len() == 0 {
        default_root
    } else {
        search_path
    }
}

/// The search that a request asks for, `root` being what the file system says of
/// `root_of` the path.
///
/// A query that is blank asks for nothing. Else the root must exist, and the query,
/// without the white space at its ends, must be a pattern that compiles where it is
/// meant as one. A text for which case does not count is looked for in lower case.
pub open spec fn prepared(
    query: Seq<char>,
    search_path: Seq<char>,
    is_regex: bool,
    match_case: bool,
    default_root: Seq<char>,
    root: PathStatus,
) -> Result<Option<Request>, SearchFault> {
    let wanted = trim(query);
    if wanted.len() == 0 {
        Ok(None)
    } else if root == PathStatus::Missing {
        Err(SearchFault::RootMissing(search_path))
    } else if is_regex && pattern_error(wanted, !match_case) is Some {
        Err(SearchFault::InvalidPattern(pattern_error(wanted, !match_case)->0))
    } else {
        Ok(
            Some(
                Request {
                    root: root_of(search_path, default_root),
                    filter: Filter {
                        query: if !is_regex && !match_case {
                            lowercase(wanted)
                        } else {
                            wanted
                        },
                        is_regex,
                        match_case,
                    },
                    strategy: if is_root(root_of(search_path, default_root)) {
                        SearchStrategy::FromRoot
                    } else {
                        SearchStrategy::Layered
                    },
                },
            ),
        )
    }
}

/// The directory that a search starts from: the one asked for, or `default_root` where
/// none is.
pub fn search_root(search_path: &str, default_root: &str) -> (out: String)
    ensures
        out@ == root_of(search_path@, default_root@),
{
    if search_path.unicode_len() == 0 {
        default_root.to_owned()
    } else {
        search_path.to_owned()
    }
}

/// Makes a search ready to run, `root` being what the file system says of the
/// `search_root`. Returns `None` for a blank query, which finds nothing.
pub fn prepare_search(
    query: &str,
    search_path: &str,
    is_regex: bool,
    match_case: bool,
    default_root: &str,
    root: PathStatus,
) -> (out: Result<Option<SearchRequest>, SearchError>)
    ensures
        match prepared(query@, search_path@, is_regex, match_case, default_root@, root) {
            Ok(None) => out matches Ok(None),
            Ok(Some(request)) => out matches Ok(Some(made)) && made@ == request,
            Err(fault) => out matches Err(error) && error@ == fault,
        },
{
    let wanted = trim_text(query);
    if wanted.as_str().unicode_len() == 0 {
        return Ok(None);
    }
    if root == PathStatus::Missing {
        return Err(SearchError::RootMissing(search_path.to_owned()));
    }
    if is_regex {
        match check_pattern(wanted.as_str(), !match_case) {
            Ok(()) => {},
            Err(message) => {
                return Err(SearchError::InvalidPattern(message));
            },
        }
    }
    let query = if !is_regex && !match_case {
        to_lowercase(wanted.as_str())
    } else {
        wanted
    };
    let start = search_root(search_path, default_root);
    let strategy = if is_root_drive(start.as_str()) {
        SearchStrategy::FromRoot
    } else {
        SearchStrategy::Layered
    };
    Ok(Some(SearchRequest { root: start, filter: NameFilter { query, is_regex, match_case }, strategy }))
}

/// The root of the drive with the `index`-th letter of the alphabet: the letter, a colon
/// and a backslash.
pub open spec fn drive_root(index: int) -> Seq<char> {
    seq![(65 + index) as u8 as char, ':', '\\']
}

/// The roots of the drives that there may be, from `A:\` to `Z:\`.
pub fn candidate_drives() -> (out: Vec<String>)
    ensures
        out.len() == 26,
        forall|i: int| 0 <= i < 26 ==> (#[trigger] out[i])@ == drive_root(i),
{
    let mut out: Vec<String> = Vec::new();
    let mut i: u8 = 0;
    while i < 26
        invariant
            i <= 26,
            out.len() == i,
            forall|k: int| 0 <= k < i ==> (#[trigger] out[k])@ == drive_root(k),
        decreases 26 - i,
    {
        let mut root = String::new();
        root.push((65u8 + i) as char);
        root.push(':');
        root.push('\\');
        assert(root@ =~= drive_root(i as int));
        out.push(root);
        i += 1;
    }
    out
}

/// The drives to offer: those that were found, or `C:\` alone where none was.
pub fn drives_or_default(found: Vec<String>) -> (out: Vec<String>)
    ensures
        found.len() > 0 ==> out == found,
        found.len() == 0 ==> out.len() == 1 && out[0]@ == drive_root(2),
{
    if found.len() > 0 {
        found
    } else {
        let mut root = String::new();
        root.push('C');
        root.push(':');
        root.push('\\');
        assert(root@ =~= drive_root(2));
        vec![root]
    }
}

/// Adds a result to those gathered so far, unless they are `MAX_RESULTS` already.
/// Returns whether the search is to stop: it is when a result finds no room.
pub fn record(results: &mut Vec<FileResult>, found: FileResult) -> (stop: bool)
    ensures
        stop == (old(results).len() >= MAX_RESULTS),
        stop ==> final(results)@ == old(results)@,
        !stop ==> final(results)@ == old(results)@.push(found),
{
    if results.len() < MAX_RESULTS {
        results.push(found);
        false
    } else {
        true
    }
}

/// Whether a layered search makes its second pass: it does where the first has found
/// less than half of `MAX_RESULTS` and was not stopped.
pub fn needs_second_pass(found: usize, stopped: bool) -> (out: bool)
    ensures
        out == (found < MAX_RESULTS / 2 && !stopped),
{
    found < MAX_RESULTS / 2 && !stopped
}

} // verus!
