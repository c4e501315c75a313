//! The codec of the native file list: an ordered list of paths to and from the
//! file-drop block that the clipboard holds.

use vstd::prelude::*;
use crate::text::{first_index, lemma_first_index, lemma_first_index_is, texts};
use crate::wide::{
    decode_range, encode_utf16, lemma_utf16_round_trip, lemma_utf16_zero_free,
    utf16_decoding, utf16_encoding,
};

verus! {

/// The size of the header in front of the path entries.
pub const HEADER_SIZE: usize = 20;

/// The header of a file-drop block: the offset of the entries, a zero point, a zero
/// flag, and the flag that says the entries are wide characters; each a 32-bit
/// little-endian field.
pub open spec fn header() -> Seq<u8> {
    seq![20u8, 0, 0, 0, 0, 0, 0, 0, 0, 0, 0, 0, 0, 0, 0, 0, 1, 0, 0, 0]
}

/// Each path's UTF-16 encoding, each followed by one zero unit.
pub open spec fn wide_entries(paths: Seq<Seq<char>>) -> Seq<u16>
    decreases paths.len(),
{
    if paths.len() == 0 {
        Seq::empty()
    } else {
        utf16_encoding(paths[0]).push(0) + wide_entries(paths.drop_first())
    }
}

/// The entries, and the one zero unit more that ends the list.
pub open spec fn wide_block(paths: Seq<Seq<char>>) -> Seq<u16> {
    wide_entries(paths).push(0)
}

/// The bytes of a sequence of 16-bit units, low byte first.
pub open spec fn le_bytes(units: Seq<u16>) -> Seq<u8> {
    Seq::new(
        2 * units.len(),
        |i: int|
            if i % 2 == 0 {
                (units[i / 2] % 256) as u8
            } else {
                (units[i / 2] / 256) as u8
            },
    )
}

/// The 16-bit units that a byte string holds, low byte first; an odd last byte is left
/// out.
pub open spec fn le_units(bytes: Seq<u8>) -> Seq<u16> {
    Seq::new(bytes.len() / 2, |i: int| (bytes[2 * i] + 256 * bytes[2 * i + 1]) as u16)
}

/// The file-drop block of a list of paths: the header, then the wide block.
pub open spec fn drop_block(paths: Seq<Seq<char>>) -> Seq<u8> {
    header() + le_bytes(wide_block(paths))
}

/// The entries of a list with one more path at its end.
pub proof fn lemma_wide_entries_push(paths: Seq<Seq<char>>, last: Seq<char>)
    ensures
        wide_entries(paths.push(last)) == wide_entries(paths) + utf16_encoding(last).push(0),
    decreases paths.len(),
{
    if paths.len() == 0 {
        assert(paths.push(last).drop_first() =~= Seq::<Seq<char>>::empty());
        assert(wide_entries(paths.push(last)) =~= utf16_encoding(last).push(0) + wide_entries(
            Seq::<Seq<char>>::empty(),
        ));
        assert(wide_entries(paths.push(last)) =~= wide_entries(paths) + utf16_encoding(
            last,
        ).push(0));
    } else {
        lemma_wide_entries_push(paths.drop_first(), last);
        assert(paths.push(last).drop_first() =~= paths.drop_first().push(last));
        assert(wide_entries(paths.push(last)) =~= wide_entries(paths) + utf16_encoding(
            last,
        ).push(0));
    }
}

/// The bytes of one sequence of units after another.
pub proof fn lemma_le_bytes_concat(a: Seq<u16>, b: Seq<u16>)
    ensures
        le_bytes(a + b) == le_bytes(a) + le_bytes(b),
{
    assert forall|i: int| 0 <= i < 2 * (a.len() + b.len()) implies le_bytes(a + b)[i] == (le_bytes(
        a,
    ) + le_bytes(b))[i] by {
        if i < 2 * a.len() {
            assert((a + b)[i / 2] == a[i / 2]);
        } else {
            assert((a + b)[i / 2] == b[i / 2 - a.len()]);
            assert((i - 2 * a.len()) / 2 == i / 2 - a.len());
            assert((i - 2 * a.len()) % 2 == i % 2);
        }
    }
    assert(le_bytes(a + b) =~= le_bytes(a) + le_bytes(b));
}

/// Appends the two bytes of `unit` to `out`, low byte first.
fn push_unit(out: &mut Vec<u8>, unit: u16)
    ensures
        final(out)@ == old(out)@ + le_bytes(seq![unit]),
{
    out.push((unit % 256) as u8);
    out.push((unit / 256) as u8);
    assert(out@ =~= old(out)@ + le_bytes(seq![unit]));
}

/// Appends the bytes of `units` to `out`, low byte first.
fn push_units(out: &mut Vec<u8>, units: &Vec<u16>)
    ensures
        final(out)@ == old(out)@ + le_bytes(units@),
{
    let mut i: usize = 0;
    assert(old(out)@ + le_bytes(units@.take(0)) =~= old(out)@);
    while i < units.len()
        invariant
            i <= units.len(),
            out@ == old(out)@ + le_bytes(units@.take(i as int)),
        decreases units.len() - i,
    {
        proof {
            lemma_le_bytes_concat(units@.take(i as int), seq![units@[i as int]]);
            assert(units@.take(i as int) + seq![units@[i as int]] =~= units@.take(i + 1));
        }
        push_unit(out, units[i]);
        i += 1;
        assert(out@ =~= old(out)@ + le_bytes(units@.take(i as int)));
    }
    assert(units@.take(i as int) =~= units@);
}

/// Builds the file-drop block of a list of paths: the header, each path as wide
/// characters with a zero after it, and one zero more.
pub fn encode_file_list(paths: &Vec<String>) -> (out: Vec<u8>)
    ensures
        out@ == drop_block(texts(paths@)),
{
    let mut out: Vec<u8> = vec![20u8, 0, 0, 0, 0, 0, 0, 0, 0, 0, 0, 0, 0, 0, 0, 0, 1, 0, 0, 0];
    assert(out@ =~= header());
    let ghost all = texts(paths@);
    let mut i: usize = 0;
    assert(all.take(0) =~= Seq::<Seq<char>>::empty());
    assert(out@ =~= header() + le_bytes(wide_entries(all.take(0))));
    while i < paths.len()
        invariant
            i <= paths.len(),
            all == texts(paths@),
            out@ == header() + le_bytes(wide_entries(all.take(i as int))),
        decreases paths.len() - i,
    {
        let units = encode_utf16(paths[i].as_str());
        let ghost before = wide_entries(all.take(i as int));
        proof {
            lemma_wide_entries_push(all.take(i as int), all[i as int]);
            assert(all.take(i as int).push(all[i as int]) =~= all.take(i + 1));
            lemma_le_bytes_concat(before, units@.push(0));
            lemma_le_bytes_concat(units@, seq![0u16]);
            assert(units@.push(0) =~= units@ + seq![0u16]);
        }
        push_units(&mut out, &units);
        push_unit(&mut out, 0);
        i += 1;
        assert(out@ =~= header() + le_bytes(wide_entries(all.take(i as int))));
    }
    proof {
        assert(all.take(i as int) =~= all);
        lemma_le_bytes_concat(wide_entries(all), seq![0u16]);
        assert(wide_entries(all).push(0) =~= wide_entries(all) + seq![0u16]);
    }
    push_unit(&mut out, 0);
    assert(out@ =~= drop_block(all));
    out
}

/// The 32-bit little-endian field that starts at `at`.
pub open spec fn le_u32(bytes: Seq<u8>, at: int) -> int {
    bytes[at] + 256 * bytes[at + 1] + 65536 * bytes[at + 2] + 16777216 * bytes[at + 3]
}

/// `rest` with the entries `done` in front of it, where there is a `rest`.
pub open spec fn after(done: Seq<Seq<u16>>, rest: Option<Seq<Seq<u16>>>) -> Option<Seq<Seq<u16>>> {
    match rest {
        Some(r) => Some(done + r),
        None => None,
    }
}

/// The entries of a wide block: the runs of units before each zero, up to the first
/// empty run, which ends the list. `None` where the units end before the list does.
pub open spec fn entries(units: Seq<u16>) -> Option<Seq<Seq<u16>>>
    decreases units.len(),
{
    let k = first_index(units, 0u16);
    if 0 < k < units.len() {
        after(seq![units.take(k)], entries(units.skip(k + 1)))
    } else if k == 0 && units.len() > 0 {
        Some(Seq::empty())
    } else {
        None
    }
}

/// The paths that a file-drop block holds, in the block's order. `None` for a block
/// shorter than its header, one whose entries are not wide characters, one whose offset
/// points into the header or past the end, and one whose list does not end.
pub open spec fn decoded_file_list(block: Seq<u8>) -> Option<Seq<Seq<char>>> {
    if block.len() < 20 || le_u32(block, 16) == 0 || le_u32(block, 0) < 20 || le_u32(block, 0)
        > block.len() {
        None
    } else {
        match entries(le_units(block.skip(le_u32(block, 0)))) {
            Some(found) => Some(Seq::new(found.len(), |i: int| utf16_decoding(found[i]))),
            None => None,
        }
    }
}

/// A path that a file-drop block can hold: not empty, and free of the character U+0000.
pub open spec fn storable(path: Seq<char>) -> bool {
    path.len() > 0 && forall|i: int| 0 <= i < path.len() ==> path[i] != '\0'
}

/// Reading the bytes of a sequence of units gives the units back.
pub proof fn lemma_le_units_of_bytes(units: Seq<u16>)
    ensures
        le_units(le_bytes(units)) == units,
{
    let bytes = le_bytes(units);
    assert forall|i: int| 0 <= i < units.len() implies le_units(bytes)[i] == units[i] by {
        assert(bytes[2 * i] == (units[(2 * i) / 2] % 256) as u8);
        assert(bytes[2 * i + 1] == (units[(2 * i + 1) / 2] / 256) as u8);
    }
    assert(le_units(bytes) =~= units);
}

/// The wide block of storable paths holds the encoding of each as one entry, in order.
pub proof fn lemma_entries_of_wide_block(paths: Seq<Seq<char>>)
    requires
        forall|i: int| 0 <= i < paths.len() ==> storable(#[trigger] paths[i]),
    ensures
        entries(wide_block(paths)) == Some(
            Seq::new(paths.len(), |i: int| utf16_encoding(paths[i])),
        ),
    decreases paths.len(),
{
    let block = wide_block(paths);
    let want = Seq::new(paths.len(), |i: int| utf16_encoding(paths[i]));
    if paths.len() == 0 {
        assert(block =~= seq![0u16]);
        lemma_first_index_is(block, 0u16, 0);
        assert(want =~= Seq::<Seq<u16>>::empty());
    } else {
        let head = utf16_encoding(paths[0]);
        let tail = paths.drop_first();
        assert(storable(paths[0]));
        lemma_utf16_zero_free(paths[0]);
        assert forall|i: int| 0 <= i < tail.len() implies storable(#[trigger] tail[i]) by {
            assert(tail[i] == paths[i + 1]);
        }
        lemma_entries_of_wide_block(tail);
        assert(block =~= head.push(0) + wide_block(tail));
        let k = head.len() as int;
        assert forall|i: int| 0 <= i < k implies block[i] != 0u16 by {
            assert(block[i] == head[i]);
        }
        assert(block[k] == 0u16);
        lemma_first_index_is(block, 0u16, k);
        assert(block.take(k) =~= head);
        assert(block.skip(k + 1) =~= wide_block(tail));
        let rest = Seq::new(tail.len(), |i: int| utf16_encoding(tail[i]));
        assert(seq![head] + rest =~= want);
    }
}

/// Reading the file-drop block of a list of storable paths gives the same paths in the
/// same order.
pub proof fn lemma_file_list_round_trip(paths: Seq<Seq<char>>)
    requires
        forall|i: int| 0 <= i < paths.len() ==> storable(#[trigger] paths[i]),
    ensures
        decoded_file_list(drop_block(paths)) == Some(paths),
{
    let block = drop_block(paths);
    let units = wide_block(paths);
    assert(block.len() == 20 + 2 * units.len());
    assert(block[0] == 20u8 && block[1] == 0u8 && block[2] == 0u8 && block[3] == 0u8);
    assert(block[16] == 1u8 && block[17] == 0u8 && block[18] == 0u8 && block[19] == 0u8);
    assert(le_u32(block, 0) == 20);
    assert(le_u32(block, 16) == 1);
    assert(block.skip(20) =~= le_bytes(units));
    lemma_le_units_of_bytes(units);
    lemma_entries_of_wide_block(paths);
    let found = Seq::new(paths.len(), |i: int| utf16_encoding(paths[i]));
    assert forall|i: int| 0 <= i < paths.len() implies utf16_decoding(found[i]) == paths[i] by {
        lemma_utf16_round_trip(paths[i]);
    }
    assert(Seq::new(found.len(), |i: int| utf16_decoding(found[i])) =~= paths);
}

/// Reads the 32-bit little-endian field that starts at `at`.
fn read_u32(bytes: &Vec<u8>, at: usize) -> (out: u32)
    requires
        at + 4 <= bytes.len(),
    ensures
        out == le_u32(bytes@, at as int),
{
    (bytes[at] as u32) + 256 * (bytes[at + 1] as u32) + 65536 * (bytes[at + 2] as u32) + 16777216
        * (bytes[at + 3] as u32)
}

/// Reads the 16-bit units of `bytes[from..]`, low byte first.
fn read_units(bytes: &Vec<u8>, from: usize) -> (out: Vec<u16>)
    requires
        from <= bytes.len(),
    ensures
        out@ == le_units(bytes@.skip(from as int)),
{
    let ghost tail = bytes@.skip(from as int);
    let count: usize = (bytes.len() - from) / 2;
    let mut out: Vec<u16> = Vec::new();
    let mut i: usize = 0;
    while i < count
        invariant
            i <= count,
            count == (bytes.len() - from) / 2,
            from <= bytes.len(),
            tail == bytes@.skip(from as int),
            out@ == le_units(tail).take(i as int),
        decreases count - i,
    {
        let low: u16 = bytes[from + 2 * i] as u16;
        let high: u16 = bytes[from + 2 * i + 1] as u16;
        out.push(low + 256 * high);
        i += 1;
        assert(out@ =~= le_units(tail).take(i as int));
    }
    assert(le_units(tail).take(i as int) =~= le_units(tail));
    out
}

/// Searches `units[from..]` for a zero: the position of the first one, or the length.
fn find_zero(units: &Vec<u16>, from: usize) -> (at: usize)
    requires
        from <= units.len(),
    ensures
        at == from + first_index(units@.skip(from as int), 0u16),
        from <= at <= units.len(),
{
    let mut i: usize = from;
    while i < units.len() && units[i] != 0
        invariant
            from <= i <= units.len(),
            forall|j: int| from <= j < i ==> units@[j] != 0,
        decreases units.len() - i,
    {
        i += 1;
    }
    proof {
        lemma_first_index_is(units@.skip(from as int), 0u16, i - from);
    }
    i
}

/// Reads the paths out of a file-drop block, in the block's order.
///
/// Returns `None` for a block shorter than its header, one whose entries are not wide
/// characters, one whose offset points into the header or past the end, and one whose
/// list does not end.
pub fn decode_file_list(block: &Vec<u8>) -> (out: Option<Vec<String>>)
    ensures
        out matches Some(paths) ==> decoded_file_list(block@) == Some(texts(paths@)),
        out is None ==> decoded_file_list(block@) is None,
{
    if block.len() < HEADER_SIZE {
        return None;
    }
    let offset = read_u32(block, 0);
    let wide = read_u32(block, 16);
    if wide == 0 || offset < 20 || offset as usize > block.len() {
        return None;
    }
    let units = read_units(block, offset as usize);
    let mut out: Vec<String> = Vec::new();
    let ghost mut done: Seq<Seq<u16>> = Seq::empty();
    let mut pos: usize = 0;
    assert(units@.skip(0) =~= units@);
    assert(done + entries(units@)->0 =~= entries(units@)->0);
    loop
        invariant
            block.len() >= 20,
            offset == le_u32(block@, 0),
            wide == le_u32(block@, 16),
            wide != 0 && 20 <= offset <= block.len(),
            units@ == le_units(block@.skip(offset as int)),
            pos <= units.len(),
            entries(units@) == after(done, entries(units@.skip(pos as int))),
            out.len() == done.len(),
            forall|i: int| 0 <= i < done.len() ==> out@[i]@ == utf16_decoding(#[trigger] done[i]),
        decreases units.len() - pos,
    {
        let ghost rest = units@.skip(pos as int);
        let end = find_zero(&units, pos);
        proof {
            lemma_first_index(rest, 0u16);
        }
        if end >= units.len() {
            return None;
        }
        if end == pos {
            proof {
                assert(done + Seq::<Seq<u16>>::empty() =~= done);
                let found = entries(units@)->0;
                assert(texts(out@) =~= Seq::new(found.len(), |i: int| utf16_decoding(found[i])));
            }
            return Some(out);
        }
        let path = decode_range(&units, pos, end);
        proof {
            let entry = rest.take(end - pos);
            assert(entry =~= units@.subrange(pos as int, end as int));
            assert(rest.skip(end - pos + 1) =~= units@.skip(end + 1));
            let tail = entries(units@.skip(end + 1));
            if tail is Some {
                assert(done + (seq![entry] + tail->0) =~= done.push(entry) + tail->0);
            }
            done = done.push(entry);
        }
        out.push(path);
        pos = end + 1;
    }
}

} // verus!
