//! The change detector: what was last reported, and whether new content differs.

use vstd::prelude::*;

verus! {

/// A cheap summary of what was last seen on the clipboard: the payload itself for text
/// and paths, the length of the pixel buffer for an image.
#[derive(Debug, Clone)]
pub enum Fingerprint {
    Content(String),
    ImageLength(usize),
}

/// What a `Fingerprint` is.
pub enum Mark {
    Content(Seq<char>),
    ImageLength(nat),
}

impl View for Fingerprint {
    type V = Mark;

    open spec fn view(&self) -> Mark {
        match self {
            Fingerprint::Content(s) => Mark::Content(s@),
            Fingerprint::ImageLength(n) => Mark::ImageLength(*n as nat),
        }
    }
}

impl Fingerprint {
    /// Whether two fingerprints are equal.
    pub fn same(&self, other: &Fingerprint) -> (out: bool)
        ensures
            out == (self@ == other@),
    {
        match (self, other) {
            (Fingerprint::Content(a), Fingerprint::Content(b)) => *a == *b,
            (Fingerprint::ImageLength(a), Fingerprint::ImageLength(b)) => *a == *b,
            _ => false,
        }
    }
}

/// Whether content with the mark `mark` is reported when `last` was reported before it:
/// always at first, and later unless the two marks are equal.
pub open spec fn emits(last: Option<Mark>, mark: Mark) -> bool {
    last != Some(mark)
}

/// For each of the marks seen in turn, starting after `last`, whether it is reported.
pub open spec fn emissions(last: Option<Mark>, marks: Seq<Mark>) -> Seq<bool>
    decreases marks.len(),
{
    if marks.len() == 0 {
        Seq::empty()
    } else {
        seq![emits(last, marks[0])] + emissions(Some(marks[0]), marks.drop_first())
    }
}

/// Remembers the fingerprint of what was last reported, and tells a change from a
/// repetition.
#[derive(Debug)]
pub struct ChangeDetector {
    last: Option<Fingerprint>,
}

impl ChangeDetector {
    /// The mark of what was last reported, if anything was.
    pub closed spec fn last(&self) -> Option<Mark> {
        match self.last {
            Some(fp) => Some(fp@),
            None => None,
        }
    }

    /// A detector that has seen nothing.
    pub fn new() -> (out: ChangeDetector)
        ensures
            out.last() is None,
    {
        ChangeDetector { last: None }
    }

    /// Takes note of content with the fingerprint `fp`. Returns whether it is to be
    /// reported: it is unless its fingerprint equals that of what was reported last, and
    /// then nothing changes.
    pub fn observe(&mut self, fp: Fingerprint) -> (changed: bool)
        ensures
            changed == emits(old(self).last(), fp@),
            final(self).last() == Some(fp@),
            !changed ==> *final(self) == *old(self),
    {
        let repeated = match &self.last {
            Some(last) => last.same(&fp),
            None => false,
        };
        if repeated {
            false
        } else {
            self.last = Some(fp);
            true
        }
    }
}

/// Seen in turn by a detector that has seen nothing, the first mark is reported, and each
/// later one exactly when it differs from the one just before it.
pub proof fn lemma_emissions(marks: Seq<Mark>, i: int)
    requires
        0 <= i < marks.len(),
    ensures
        emissions(None, marks).len() == marks.len(),
        emissions(None, marks)[i] == (i == 0 || marks[i] != marks[i - 1]),
{
    lemma_emissions_after(None, marks, i);
}

/// Seen in turn after `last`, each mark is reported exactly when it differs from the one
/// just before it, the first from `last`.
pub proof fn lemma_emissions_after(last: Option<Mark>, marks: Seq<Mark>, i: int)
    requires
        0 <= i < marks.len(),
    ensures
        emissions(last, marks).len() == marks.len(),
        emissions(last, marks)[i] == if i == 0 {
            emits(last, marks[0])
        } else {
            marks[i] != marks[i - 1]
        },
    decreases marks.len(),
{
    let rest = marks.drop_first();
    lemma_emissions_len(last, marks);
    if i > 0 {
        lemma_emissions_after(Some(marks[0]), rest, i - 1);
        assert(rest[i - 1] == marks[i]);
        if i > 1 {
            assert(rest[i - 2] == marks[i - 1]);
        }
    }
}

/// One answer for each mark.
pub proof fn lemma_emissions_len(last: Option<Mark>, marks: Seq<Mark>)
    ensures
        emissions(last, marks).len() == marks.len(),
    decreases marks.len(),
{
    if marks.len() > 0 {
        lemma_emissions_len(Some(marks[0]), marks.drop_first());
    }
}

/// The same content twice in a row is reported once: the first time.
pub proof fn lemma_repeat_reported_once(a: Mark)
    ensures
        emissions(None, seq![a, a]) == seq![true, false],
{
    let marks = seq![a, a];
    lemma_emissions(marks, 0);
    lemma_emissions(marks, 1);
    assert(emissions(None, marks) =~= seq![true, false]);
}

/// Content, other content, and the first again are reported three times: nothing is
/// remembered but what came just before.
pub proof fn lemma_return_reported_again(a: Mark, b: Mark)
    requires
        a != b,
    ensures
        emissions(None, seq![a, b, a]) == seq![true, true, true],
{
    let marks = seq![a, b, a];
    lemma_emissions(marks, 0);
    lemma_emissions(marks, 1);
    lemma_emissions(marks, 2);
    assert(emissions(None, marks) =~= seq![true, true, true]);
}

} // verus!
