//! The order of search results.

use vstd::prelude::*;
use vstd::utf8::encode_utf8;
use crate::search::{Entry, FileResult};
use crate::text::chars_of;

verus! {

/// What the place of a result among the others goes by: directories before files, then
/// the shallower path, then the shorter name.
pub struct Rank {
    /// 0 for a directory, 1 for a file.
    pub group: nat,
    /// The number of separators in the path.
    pub depth: nat,
    /// The length of the name in bytes.
    pub length: nat,
}

/// A `Rank` as it is computed.
#[derive(Debug, Clone, Copy, PartialEq, Eq, Structural)]
pub struct Key {
    pub group: u8,
    pub depth: usize,
    pub length: usize,
}

impl View for Key {
    type V = Rank;

    open spec fn view(&self) -> Rank {
        Rank { group: self.group as nat, depth: self.depth as nat, length: self.length as nat }
    }
}

/// How often `c` stands in `s`.
pub open spec fn occurrences(s: Seq<char>, c: char) -> nat
    decreases s.len(),
{
    if s.len() == 0 {
        0
    } else {
        occurrences(s.drop_last(), c) + if s.last() == c {
            1nat
        } else {
            0nat
        }
    }
}

/// The rank of a result, `separator` being what stands between the parts of a path.
pub open spec fn rank_of(entry: Entry, separator: char) -> Rank {
    Rank {
        group: if entry.is_dir {
            0
        } else {
            1
        },
        depth: occurrences(entry.path, separator),
        length: encode_utf8(entry.name).len(),
    }
}

/// The ranks of a list of results.
pub open spec fn ranks_of(list: Seq<FileResult>, separator: char) -> Seq<Rank> {
    Seq::new(list.len(), |i: int| rank_of(list[i]@, separator))
}

/// Whether the rank `a` is lower than the rank `b`.
pub open spec fn rank_lt(a: Rank, b: Rank) -> bool {
    a.group < b.group || (a.group == b.group && (a.depth < b.depth || (a.depth == b.depth
        && a.length < b.length)))
}

/// Whether the result at `a` goes before the one at `b`: it does where its rank is
/// lower, and where the ranks are equal and it came first.
pub open spec fn goes_before(ranks: Seq<Rank>, a: int, b: int) -> bool {
    rank_lt(ranks[a], ranks[b]) || (ranks[a] == ranks[b] && a < b)
}

/// Whether `order` lists the places of all results so that each goes before all that
/// follow it.
pub open spec fn is_ranking(order: Seq<int>, ranks: Seq<Rank>) -> bool {
    &&& order.len() == ranks.len()
    &&& forall|i: int| 0 <= i < order.len() ==> 0 <= #[trigger] order[i] < ranks.len()
    &&& forall|i: int, j: int|
        0 <= i < j < order.len() ==> goes_before(ranks, #[trigger] order[i], #[trigger] order[j])
}

/// Whether `out` holds the results of `list` in the order of their ranks, those of equal
/// rank in the order in which they came.
pub open spec fn is_ranked(out: Seq<FileResult>, list: Seq<FileResult>, separator: char) -> bool {
    exists|order: Seq<int>|
        {
            &&& is_ranking(order, ranks_of(list, separator))
            &&& out.len() == list.len()
            &&& forall|i: int| 0 <= i < out.len() ==> (#[trigger] out[i])@ == list[order[i]]@
        }
}

/// A ranking holds each place once.
pub proof fn lemma_ranking_holds_all(order: Seq<int>, ranks: Seq<Rank>, place: int)
    requires
        is_ranking(order, ranks),
        0 <= place < ranks.len(),
    ensures
        exists|i: int| 0 <= i < order.len() && order[i] == place,
        forall|i: int, j: int| 0 <= i < j < order.len() ==> order[i] != order[j],
{
    assert forall|i: int, j: int| 0 <= i < j < order.len() implies order[i] != order[j] by {
        assert(goes_before(ranks, order[i], order[j]));
    }
    assert(order.no_duplicates());
    order.unique_seq_to_set();
    let all = vstd::set_lib::set_int_range(0, ranks.len() as int);
    vstd::set_lib::lemma_int_range(0, ranks.len() as int);
    assert forall|x: int| order.to_set().contains(x) implies all.contains(x) by {
        let i = choose|i: int| 0 <= i < order.len() && order[i] == x;
        assert(0 <= order[i] < ranks.len());
    }
    assert(order.to_set().subset_of(all));
    vstd::set_lib::lemma_len_subset(order.to_set(), all);
    vstd::set_lib::lemma_subset_equality(order.to_set(), all);
    assert(all.contains(place));
    assert(order.to_set().contains(place));
}

/// Two rankings of the same ranks agree up to any position.
proof fn lemma_rankings_agree(first: Seq<int>, second: Seq<int>, ranks: Seq<Rank>, upto: int)
    requires
        is_ranking(first, ranks),
        is_ranking(second, ranks),
        0 <= upto <= ranks.len(),
    ensures
        forall|i: int| 0 <= i < upto ==> first[i] == second[i],
    decreases upto,
{
    if upto > 0 {
        let at = upto - 1;
        lemma_rankings_agree(first, second, ranks, at);
        lemma_ranking_holds_all(second, ranks, first[at]);
        lemma_ranking_holds_all(first, ranks, second[at]);
        let j = choose|j: int| 0 <= j < second.len() && second[j] == first[at];
        let k = choose|k: int| 0 <= k < first.len() && first[k] == second[at];
        if j < at {
            assert(first[j] == second[j]);
            assert(first[j] != first[at]);
        }
        if k < at {
            assert(first[k] == second[k]);
            assert(second[k] != second[at]);
        }
        if j > at && k > at {
            assert(goes_before(ranks, second[at], second[j]));
            assert(goes_before(ranks, first[at], first[k]));
        }
    }
}

/// The ranks of a list allow one ranking only: the order of the sorted list is fixed.
pub proof fn lemma_ranking_is_unique(first: Seq<int>, second: Seq<int>, ranks: Seq<Rank>)
    requires
        is_ranking(first, ranks),
        is_ranking(second, ranks),
    ensures
        first == second,
{
    lemma_rankings_agree(first, second, ranks, ranks.len() as int);
    assert(first =~= second);
}

/// Counts how often `c` stands in `s`.
pub fn count_char(s: &str, c: char) -> (out: usize)
    ensures
        out == occurrences(s@, c),
{
    let chars = chars_of(s);
    let mut n: usize = 0;
    let mut i: usize = 0;
    while i < chars.len()
        invariant
            i <= chars.len(),
            n <= i,
            n == occurrences(chars@.take(i as int), c),
        decreases chars.len() - i,
    {
        assert(chars@.take(i + 1).drop_last() =~= chars@.take(i as int));
        if chars[i] == c {
            n += 1;
        }
        i += 1;
    }
    assert(chars@.take(i as int) =~= chars@);
    n
}

/// The rank of a result.
pub fn key_of(item: &FileResult, separator: char) -> (out: Key)
    ensures
        out@ == rank_of(item@, separator),
{
    let group: u8 = if item.is_dir {
        0
    } else {
        1
    };
    let depth = count_char(item.path.as_str(), separator);
    let length = item.name.as_str().as_bytes().len();
    Key { group, depth, length }
}

/// Whether the rank `a` is lower than the rank `b`.
pub fn key_lt(a: &Key, b: &Key) -> (out: bool)
    ensures
        out == rank_lt(a@, b@),
{
    a.group < b.group || (a.group == b.group && (a.depth < b.depth || (a.depth == b.depth
        && a.length < b.length)))
}

/// The views of a list of keys.
pub open spec fn key_ranks(keys: Seq<Key>) -> Seq<Rank> {
    Seq::new(keys.len(), |i: int| keys[i]@)
}

/// The places of a list of places.
pub open spec fn places(order: Seq<usize>) -> Seq<int> {
    Seq::new(order.len(), |i: int| order[i] as int)
}

/// The order in which results of these ranks go: the places of all of them, each before
/// all that it goes before.
pub fn ranking(keys: &Vec<Key>) -> (order: Vec<usize>)
    ensures
        is_ranking(places(order@), key_ranks(keys@)),
{
    let ghost ranks = key_ranks(keys@);
    let mut order: Vec<usize> = Vec::new();
    let mut n: usize = 0;
    while n < keys.len()
        invariant
            n <= keys.len(),
            ranks == key_ranks(keys@),
            order.len() == n,
            forall|i: int| 0 <= i < n ==> 0 <= #[trigger] order@[i] < n,
            forall|i: int, j: int|
                0 <= i < j < n ==> goes_before(ranks, #[trigger] order@[i] as int, #[trigger] order@[j] as int),
        decreases keys.len() - n,
    {
        let mut at: usize = n;
        while at > 0 && key_lt(&keys[n], &keys[order[at - 1]])
            invariant
                n < keys.len(),
                ranks == key_ranks(keys@),
                order.len() == n,
                at <= n,
                forall|i: int| 0 <= i < n ==> 0 <= #[trigger] order@[i] < n,
                forall|i: int| at <= i < n ==> rank_lt(ranks[n as int], ranks[#[trigger] order@[i] as int]),
            decreases at,
        {
            at -= 1;
        }
        let ghost before = order@;
        order.insert(at, n);
        proof {
            assert forall|i: int, j: int| 0 <= i < j < n + 1 implies goes_before(
                ranks,
                #[trigger] order@[i] as int,
                #[trigger] order@[j] as int,
            ) by {
                let a = order@[i] as int;
                let b = order@[j] as int;
                if j < at {
                    assert(order@[i] == before[i] && order@[j] == before[j]);
                } else if j == at {
                    assert(b == n);
                    assert(order@[i] == before[i]);
                    assert(!rank_lt(ranks[n as int], ranks[before[at - 1] as int]));
                    if i < at - 1 {
                        assert(goes_before(ranks, before[i] as int, before[at - 1] as int));
                    }
                } else if i < at {
                    assert(order@[i] == before[i] && order@[j] == before[j - 1]);
                } else if i == at {
                    assert(a == n);
                    assert(order@[j] == before[j - 1]);
                } else {
                    assert(order@[i] == before[i - 1] && order@[j] == before[j - 1]);
                }
            }
            assert forall|i: int| 0 <= i < n + 1 implies 0 <= #[trigger] order@[i] < n + 1 by {
                if i < at {
                    assert(order@[i] == before[i]);
                } else if i > at {
                    assert(order@[i] == before[i - 1]);
                }
            }
        }
        n += 1;
    }
    order
}

/// A copy of a result.
fn copy_of(item: &FileResult) -> (out: FileResult)
    ensures
        out@ == item@,
{
    FileResult { name: item.name.clone(), path: item.path.clone(), is_dir: item.is_dir }
}

/// Puts results in order: directories before files, then the shallower path before the
/// deeper, then the shorter name before the longer; results that are equal in all three
/// stay in the order in which they came. `separator` is what stands between the parts of
/// a path.
pub fn sort_results(list: Vec<FileResult>, separator: char) -> (out: Vec<FileResult>)
    ensures
        is_ranked(out@, list@, separator),
{
    let mut keys: Vec<Key> = Vec::new();
    let mut i: usize = 0;
    while i < list.len()
        invariant
            i <= list.len(),
            keys.len() == i,
            forall|k: int| 0 <= k < i ==> (#[trigger] keys@[k])@ == rank_of(list@[k]@, separator),
        decreases list.len() - i,
    {
        keys.push(key_of(&list[i], separator));
        i += 1;
    }
    assert(key_ranks(keys@) =~= ranks_of(list@, separator));
    let order = ranking(&keys);
    let mut out: Vec<FileResult> = Vec::new();
    let mut k: usize = 0;
    while k < order.len()
        invariant
            k <= order.len(),
            order.len() == list.len(),
            is_ranking(places(order@), ranks_of(list@, separator)),
            out.len() == k,
            forall|j: int| 0 <= j < k ==> (#[trigger] out@[j])@ == list@[order@[j] as int]@,
        decreases order.len() - k,
    {
        assert(0 <= places(order@)[k as int] < list.len());
        out.push(copy_of(&list[order[k]]));
        k += 1;
    }
    proof {
        let witness = places(order@);
        assert forall|j: int| 0 <= j < out.len() implies (#[trigger] out@[j])@ == list@[witness[j]]@ by {
            assert(witness[j] == order@[j] as int);
        }
    }
    out
}

} // verus!
