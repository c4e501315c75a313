//! Texts as sequences of characters: finding, splitting into fields and lines, joining,
//! trimming, and the shape of an absolute path.

use vstd::prelude::*;
use vstd::string::StringExecFns;

verus! {

/// `String::push` of std. Claims: the character is appended at the end, and nothing else
/// changes.
pub assume_specification[ String::push ](s: &mut String, c: char)
    ensures
        final(s)@ == old(s)@.push(c),
;

/// The texts of a list of strings.
pub open spec fn texts(list: Seq<String>) -> Seq<Seq<char>> {
    Seq::new(list.len(), |i: int| list[i]@)
}

/// The characters of `s`, in order.
pub fn chars_of(s: &str) -> (out: Vec<char>)
    ensures
        out@ == s@,
{
    let mut out: Vec<char> = Vec::new();
    for c in it: s.chars()
        invariant
            out@ == it.seq().take(it.index() as int),
            it.seq() == s@,
    {
        out.push(c);
    }
    out
}

/// The string made of the characters `chars[from..to]`, in order.
pub(crate) fn string_of(chars: &Vec<char>, from: usize, to: usize) -> (out: String)
    requires
        from <= to <= chars.len(),
    ensures
        out@ == chars@.subrange(from as int, to as int),
{
    let mut out = String::new();
    let mut i: usize = from;
    while i < to
        invariant
            from <= i <= to <= chars.len(),
            out@ == chars@.subrange(from as int, i as int),
        decreases to - i,
    {
        out.push(chars[i]);
        i += 1;
    }
    out
}

/// Whether two strings hold the same text.
pub fn same_text(a: &str, b: &str) -> (out: bool)
    ensures
        out == (a@ == b@),
{
    let x = chars_of(a);
    let y = chars_of(b);
    if x.len() != y.len() {
        return false;
    }
    let mut i: usize = 0;
    while i < x.len()
        invariant
            x@ == a@,
            y@ == b@,
            x.len() == y.len(),
            i <= x.len(),
            x@.take(i as int) == y@.take(i as int),
        decreases x.len() - i,
    {
        if x[i] != y[i] {
            return false;
        }
        assert(x@.take(i + 1) =~= x@.take(i as int).push(x@[i as int]));
        assert(y@.take(i + 1) =~= y@.take(i as int).push(y@[i as int]));
        i += 1;
    }
    assert(x@.take(i as int) =~= x@);
    assert(y@.take(i as int) =~= y@);
    true
}

/// The position of the first `c` in `s`, or the length of `s` where it holds none.
pub open spec fn first_index<T>(s: Seq<T>, c: T) -> int
    decreases s.len(),
{
    if s.len() == 0 || s[0] == c {
        0
    } else {
        1 + first_index(s.drop_first(), c)
    }
}

/// `first_index` lies within the sequence's bounds, no `c` stands before it, and a `c`
/// stands at it unless it is the length.
pub proof fn lemma_first_index<T>(s: Seq<T>, c: T)
    ensures
        0 <= first_index(s, c) <= s.len(),
        forall|i: int| 0 <= i < first_index(s, c) ==> s[i] != c,
        first_index(s, c) < s.len() ==> s[first_index(s, c)] == c,
    decreases s.len(),
{
    if s.len() == 0 || s[0] == c {
    } else {
        let t = s.drop_first();
        lemma_first_index(t, c);
        assert forall|i: int| 0 <= i < first_index(s, c) implies s[i] != c by {
            if i > 0 {
                assert(s[i] == t[i - 1]);
            }
        }
        if first_index(s, c) < s.len() {
            assert(s[first_index(s, c)] == t[first_index(t, c)]);
        }
    }
}

/// A position that holds `c` with no `c` before it is the first index of `c`.
pub proof fn lemma_first_index_is<T>(s: Seq<T>, c: T, k: int)
    requires
        0 <= k <= s.len(),
        forall|i: int| 0 <= i < k ==> s[i] != c,
        k < s.len() ==> s[k] == c,
    ensures
        first_index(s, c) == k,
{
    lemma_first_index(s, c);
    let f = first_index(s, c);
    if f < k {
        assert(s[f] == c);
    } else if k < f {
        assert(s[k] == c);
    }
}

/// The fields of `s` between occurrences of the separator `sep`: one more field than
/// there are separators, each free of `sep`, in order.
pub open spec fn split(s: Seq<char>, sep: char) -> Seq<Seq<char>>
    decreases s.len(),
{
    let k = first_index(s, sep);
    if 0 <= k < s.len() {
        seq![s.take(k)] + split(s.skip(k + 1), sep)
    } else {
        seq![s]
    }
}

/// Searches `chars[from..]` for `c`: the position of the first one, or the length.
pub(crate) fn find_char(chars: &Vec<char>, c: char, from: usize) -> (at: usize)
    requires
        from <= chars.len(),
    ensures
        at == from + first_index(chars@.skip(from as int), c),
        from <= at <= chars.len(),
{
    let mut i: usize = from;
    while i < chars.len() && chars[i] != c
        invariant
            from <= i <= chars.len(),
            forall|j: int| from <= j < i ==> chars@[j] != c,
        decreases chars.len() - i,
    {
        i += 1;
    }
    proof {
        lemma_first_index_is(chars@.skip(from as int), c, i - from);
    }
    i
}

/// A white-space character of Unicode.
pub open spec fn is_space(c: char) -> bool {
    let v = c as u32;
    (0x09 <= v <= 0x0D) || v == 0x20 || v == 0x85 || v == 0xA0 || v == 0x1680 || (0x2000 <= v
        <= 0x200A) || v == 0x2028 || v == 0x2029 || v == 0x202F || v == 0x205F || v == 0x3000
}

/// A text without the white space at its start.
pub open spec fn trim_start(s: Seq<char>) -> Seq<char>
    decreases s.len(),
{
    if s.len() > 0 && is_space(s[0]) {
        trim_start(s.drop_first())
    } else {
        s
    }
}

/// A text without the white space at its end.
pub open spec fn trim_end(s: Seq<char>) -> Seq<char>
    decreases s.len(),
{
    if s.len() > 0 && is_space(s.last()) {
        trim_end(s.drop_last())
    } else {
        s
    }
}

/// A text without the white space at its start and at its end.
pub open spec fn trim(s: Seq<char>) -> Seq<char> {
    trim_end(trim_start(s))
}

/// A letter of the Latin alphabet without accents.
pub open spec fn is_ascii_letter(c: char) -> bool {
    ('a' <= c <= 'z') || ('A' <= c <= 'Z')
}

/// Whether a text has the shape of an absolute path: a drive letter, a colon and a
/// slash of either kind; two backslashes, as a network path starts; or a slash, the
/// root.
pub open spec fn is_absolute_path(s: Seq<char>) -> bool {
    ||| (s.len() >= 3 && is_ascii_letter(s[0]) && s[1] == ':' && (s[2] == '\\' || s[2] == '/'))
    ||| (s.len() >= 2 && s[0] == '\\' && s[1] == '\\')
    ||| (s.len() >= 1 && s[0] == '/')
}

/// Whether `c` is a white-space character of Unicode.
pub fn char_is_space(c: char) -> (out: bool)
    ensures
        out == is_space(c),
{
    let v: u32 = c as u32;
    (0x09 <= v && v <= 0x0D) || v == 0x20 || v == 0x85 || v == 0xA0 || v == 0x1680 || (0x2000 <= v
        && v <= 0x200A) || v == 0x2028 || v == 0x2029 || v == 0x202F || v == 0x205F || v == 0x3000
}

/// The bounds of `chars` without the white space at its two ends.
pub fn trim_bounds(chars: &Vec<char>) -> (out: (usize, usize))
    ensures
        out.0 <= out.1 <= chars.len(),
        chars@.subrange(out.0 as int, out.1 as int) == trim(chars@),
{
    let mut from: usize = 0;
    assert(chars@.skip(0) =~= chars@);
    while from < chars.len() && char_is_space(chars[from])
        invariant
            from <= chars.len(),
            trim_start(chars@) == trim_start(chars@.skip(from as int)),
        decreases chars.len() - from,
    {
        assert(chars@.skip(from as int).drop_first() =~= chars@.skip(from + 1));
        from += 1;
    }
    let ghost rest = chars@.skip(from as int);
    assert(trim_start(chars@) == rest);
    let mut to: usize = chars.len();
    assert(chars@.subrange(from as int, to as int) =~= rest);
    while to > from && char_is_space(chars[to - 1])
        invariant
            from <= to <= chars.len(),
            trim_end(rest) == trim_end(chars@.subrange(from as int, to as int)),
        decreases to - from,
    {
        assert(chars@.subrange(from as int, to as int).drop_last() =~= chars@.subrange(
            from as int,
            to - 1,
        ));
        to -= 1;
    }
    (from, to)
}

/// A text without the white space at its start and at its end.
pub fn trim_text(s: &str) -> (out: String)
    ensures
        out@ == trim(s@),
{
    let chars = chars_of(s);
    let (from, to) = trim_bounds(&chars);
    string_of(&chars, from, to)
}

/// Whether a text has the shape of an absolute path.
pub fn has_absolute_shape(s: &str) -> (out: bool)
    ensures
        out == is_absolute_path(s@),
{
    let chars = chars_of(s);
    let n = chars.len();
    (n >= 3 && (('a' <= chars[0] && chars[0] <= 'z') || ('A' <= chars[0] && chars[0] <= 'Z'))
        && chars[1] == ':' && (chars[2] == '\\' || chars[2] == '/')) || (n >= 2 && chars[0] == '\\'
        && chars[1] == '\\') || (n >= 1 && chars[0] == '/')
}

/// A line without the carriage return that ends it, if one does.
pub open spec fn strip_cr(line: Seq<char>) -> Seq<char> {
    if line.len() > 0 && line.last() == '\r' {
        line.drop_last()
    } else {
        line
    }
}

/// The lines of a text. Each line feed ends a line, and a carriage return just before
/// it belongs to the line ending. What follows the last line feed is a line of its own
/// unless it is empty.
pub open spec fn lines(s: Seq<char>) -> Seq<Seq<char>> {
    let fields = split(s, '\n');
    let ended = Seq::new((fields.len() - 1) as nat, |i: int| strip_cr(fields[i]));
    if fields.last().len() == 0 {
        ended
    } else {
        ended.push(fields.last())
    }
}

/// The lines with a line feed between each two.
pub open spec fn join_lines(list: Seq<Seq<char>>) -> Seq<char>
    decreases list.len(),
{
    if list.len() == 0 {
        Seq::empty()
    } else if list.len() == 1 {
        list[0]
    } else {
        join_lines(list.drop_last()) + seq!['\n'] + list.last()
    }
}

/// Splitting a text that ends in a separator and a field without one gives the fields
/// of what stands before that separator, and then that field.
pub proof fn lemma_split_push(front: Seq<char>, sep: char, last: Seq<char>)
    requires
        forall|i: int| 0 <= i < last.len() ==> last[i] != sep,
    ensures
        split(front + seq![sep] + last, sep) == split(front, sep).push(last),
    decreases front.len(),
{
    let s = front + seq![sep] + last;
    lemma_first_index(front, sep);
    let k = first_index(front, sep);
    assert forall|i: int| 0 <= i < k implies s[i] != sep by {
        assert(s[i] == front[i]);
    }
    if k < front.len() {
        assert(s[k] == front[k]);
    } else {
        assert(s[k] == sep);
    }
    lemma_first_index_is(s, sep, k);
    if k < front.len() {
        let rest = front.skip(k + 1);
        lemma_split_push(rest, sep, last);
        assert(s.skip(k + 1) =~= rest + seq![sep] + last);
        assert(s.take(k) =~= front.take(k));
        assert(seq![front.take(k)] + split(rest, sep).push(last) =~= (seq![front.take(k)]
            + split(rest, sep)).push(last));
    } else {
        assert(s.take(k) =~= front);
        assert(s.skip(k + 1) =~= last);
        lemma_first_index_is(last, sep, last.len() as int);
        assert(split(last, sep) =~= seq![last]);
        assert(split(front, sep) =~= seq![front]);
        assert(seq![front] + seq![last] =~= seq![front].push(last));
    }
}

/// A list of lines that joining and splitting gives back: no line holds a line feed or
/// ends in a carriage return, and the last one is not empty.
pub open spec fn is_line_list(list: Seq<Seq<char>>) -> bool {
    &&& forall|i: int, j: int| 0 <= i < list.len() && 0 <= j < list[i].len() ==> list[i][j] != '\n'
    &&& forall|i: int| 0 <= i < list.len() ==> strip_cr(#[trigger] list[i]) == list[i]
    &&& list.len() > 0 ==> list.last().len() > 0
}

/// The fields between the line feeds of joined lines are those lines.
pub proof fn lemma_split_of_join(list: Seq<Seq<char>>)
    requires
        list.len() > 0,
        forall|i: int, j: int| 0 <= i < list.len() && 0 <= j < list[i].len() ==> list[i][j] != '\n',
    ensures
        split(join_lines(list), '\n') == list,
    decreases list.len(),
{
    if list.len() == 1 {
        lemma_first_index_is(list[0], '\n', list[0].len() as int);
        assert(split(list[0], '\n') =~= seq![list[0]]);
        assert(seq![list[0]] =~= list);
    } else {
        let front = list.drop_last();
        assert forall|i: int, j: int| 0 <= i < front.len() && 0 <= j < front[i].len() implies front[i][j]
            != '\n' by {
            assert(front[i] == list[i]);
        }
        lemma_split_of_join(front);
        lemma_split_push(join_lines(front), '\n', list.last());
        assert(front.push(list.last()) =~= list);
    }
}

/// Splitting joined lines into lines gives the lines back.
pub proof fn lemma_lines_of_join(list: Seq<Seq<char>>)
    requires
        is_line_list(list),
    ensures
        lines(join_lines(list)) == list,
{
    if list.len() == 0 {
        let empty = Seq::<char>::empty();
        lemma_first_index_is(empty, '\n', 0);
        assert(split(empty, '\n') =~= seq![empty]);
        assert(lines(empty) =~= list);
    } else {
        lemma_split_of_join(list);
        assert(lines(join_lines(list)) =~= list);
    }
}

/// Splits a text into its lines.
pub fn split_lines(content: &str) -> (out: Vec<String>)
    ensures
        texts(out@) == lines(content@),
{
    let chars = chars_of(content);
    let mut out: Vec<String> = Vec::new();
    let ghost mut done: Seq<Seq<char>> = Seq::empty();
    let mut pos: usize = 0;
    assert(chars@.skip(0) =~= chars@);
    assert(done + split(chars@, '\n') =~= split(chars@, '\n'));
    loop
        invariant
            chars@ == content@,
            pos <= chars.len(),
            split(chars@, '\n') == done + split(chars@.skip(pos as int), '\n'),
            out.len() == done.len(),
            forall|i: int| 0 <= i < done.len() ==> out@[i]@ == strip_cr(#[trigger] done[i]),
        decreases chars.len() - pos,
    {
        let ghost rest = chars@.skip(pos as int);
        let end = find_char(&chars, '\n', pos);
        proof {
            lemma_first_index(rest, '\n');
        }
        if end >= chars.len() {
            proof {
                assert(split(rest, '\n') =~= seq![rest]);
                let fields = split(chars@, '\n');
                assert(fields =~= done.push(rest));
                assert(fields.last() == rest);
            }
            if pos < chars.len() {
                let line = string_of(&chars, pos, end);
                out.push(line);
                proof {
                    assert(chars@.subrange(pos as int, end as int) =~= rest);
                    assert(texts(out@) =~= lines(content@));
                }
            } else {
                proof {
                    assert(texts(out@) =~= lines(content@));
                }
            }
            return out;
        }
        let cut: usize = if end > pos && chars[end - 1] == '\r' {
            end - 1
        } else {
            end
        };
        let line = string_of(&chars, pos, cut);
        proof {
            let field = rest.take(end - pos);
            assert(field =~= chars@.subrange(pos as int, end as int));
            assert(line@ =~= strip_cr(field));
            assert(rest.skip(end - pos + 1) =~= chars@.skip(end + 1));
            assert(done + (seq![field] + split(chars@.skip(end + 1), '\n')) =~= done.push(field)
                + split(chars@.skip(end + 1), '\n'));
            done = done.push(field);
        }
        out.push(line);
        pos = end + 1;
    }
}

/// Joins the lines with a line feed between each two.
pub fn join_paths(list: &Vec<String>) -> (out: String)
    ensures
        out@ == join_lines(texts(list@)),
{
    let mut out = String::new();
    let ghost all = texts(list@);
    let mut i: usize = 0;
    assert(all.take(0) =~= Seq::<Seq<char>>::empty());
    while i < list.len()
        invariant
            i <= list.len(),
            all == texts(list@),
            out@ == join_lines(all.take(i as int)),
        decreases list.len() - i,
    {
        if i > 0 {
            out.push('\n');
        }
        out.append(list[i].as_str());
        proof {
            let next = all.take(i + 1);
            assert(next.drop_last() =~= all.take(i as int));
            assert(next.last() == list@[i as int]@);
            if i == 0 {
                assert(out@ =~= next[0]);
            } else {
                assert(out@ =~= join_lines(next.drop_last()) + seq!['\n'] + next.last());
            }
        }
        i += 1;
    }
    assert(all.take(i as int) =~= all);
    out
}

} // verus!
