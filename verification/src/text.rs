//! Sequences of characters: searching, splitting and trimming.
//!
//! Text is modelled as `Seq<char>`, the view of `str` and `String`. The
//! executable functions work on `Vec<char>`, which gives constant-time
//! indexing; [`chars_of`] and [`string_of`] convert at the boundary.

use vstd::prelude::*;

verus! {

/// Whether `needle` occurs in `hay` starting at position `at`.
pub open spec fn occurs_at(hay: Seq<char>, needle: Seq<char>, at: int) -> bool {
    &&& 0 <= at
    &&& at + needle.len() <= hay.len()
    &&& hay.subrange(at, at + needle.len()) == needle
}

/// Whether `needle` occurs somewhere in `hay` as a contiguous run. Case
/// matters, and the empty sequence occurs in every sequence.
pub open spec fn contains(hay: Seq<char>, needle: Seq<char>) -> bool {
    exists|at: int| occurs_at(hay, needle, at)
}

/// The pieces of `s` between occurrences of `sep`, in order. There is always
/// at least one piece; `n` separators give `n + 1` pieces, some possibly empty.
pub open spec fn split(s: Seq<char>, sep: char) -> Seq<Seq<char>>
    decreases s.len(),
{
    if s.len() == 0 {
        seq![Seq::empty()]
    } else {
        let before = split(s.drop_last(), sep);
        if s.last() == sep {
            before.push(Seq::empty())
        } else {
            before.drop_last().push(before.last().push(s.last()))
        }
    }
}

/// The pieces of `parts` laid end to end with `sep` between neighbours.
pub open spec fn join(parts: Seq<Seq<char>>, sep: char) -> Seq<char>
    decreases parts.len(),
{
    if parts.len() == 0 {
        Seq::empty()
    } else if parts.len() == 1 {
        parts[0]
    } else {
        join(parts.drop_last(), sep).push(sep) + parts.last()
    }
}

/// The characters with the Unicode property `White_Space`.
pub open spec fn is_whitespace(c: char) -> bool {
    let n = c as u32;
    ||| 0x09 <= n <= 0x0D
    ||| n == 0x20
    ||| n == 0x85
    ||| n == 0xA0
    ||| n == 0x1680
    ||| 0x2000 <= n <= 0x200A
    ||| n == 0x2028
    ||| n == 0x2029
    ||| n == 0x202F
    ||| n == 0x205F
    ||| n == 0x3000
}

/// The length of `s` without its trailing run of whitespace.
pub open spec fn trimmed_len(s: Seq<char>) -> nat
    decreases s.len(),
{
    if s.len() > 0 && is_whitespace(s.last()) {
        trimmed_len(s.drop_last())
    } else {
        s.len()
    }
}

/// `s` without its trailing run of whitespace.
pub open spec fn trim_end(s: Seq<char>) -> Seq<char> {
    s.take(trimmed_len(s) as int)
}

/// Every piece of a split is free of the separator, and at least one piece exists.
pub proof fn lemma_split_pieces(s: Seq<char>, sep: char)
    ensures
        split(s, sep).len() >= 1,
        forall|k: int, i: int|
            0 <= k < split(s, sep).len() && 0 <= i < split(s, sep)[k].len()
                ==> split(s, sep)[k][i] != sep,
    decreases s.len(),
{
    if s.len() > 0 {
        lemma_split_pieces(s.drop_last(), sep);
    }
}

/// How a split grows with the sequence: a separator at the end opens a new,
/// empty piece, and any other character goes to the end of the last piece.
pub proof fn lemma_split_push(s: Seq<char>, c: char, sep: char)
    ensures
        split(s, sep).len() >= 1,
        split(s.push(c), sep) == if c == sep {
            split(s, sep).push(Seq::empty())
        } else {
            split(s, sep).drop_last().push(split(s, sep).last().push(c))
        },
{
    lemma_split_pieces(s, sep);
    assert(s.push(c).drop_last() == s);
}

/// Characters other than the separator, added at the end, all go to the
/// last piece.
proof fn lemma_split_extend(head: Seq<char>, tail: Seq<char>, sep: char)
    requires
        forall|i: int| 0 <= i < tail.len() ==> tail[i] != sep,
    ensures
        split(head, sep).len() >= 1,
        split(head + tail, sep) == split(head, sep).drop_last().push(
            split(head, sep).last() + tail,
        ),
    decreases tail.len(),
{
    let pieces = split(head, sep);
    lemma_split_pieces(head, sep);
    if tail.len() > 0 {
        let front = tail.drop_last();
        lemma_split_extend(head, front, sep);
        lemma_split_push(head + front, tail.last(), sep);
        assert((head + front).push(tail.last()) == head + tail);
        assert((pieces.last() + front).push(tail.last()) == pieces.last() + tail);
    }
}

/// Joining the pieces of a split with the separator gives the sequence back.
pub proof fn lemma_join_split(s: Seq<char>, sep: char)
    ensures
        join(split(s, sep), sep) == s,
    decreases s.len(),
{
    if s.len() > 0 {
        let front = s.drop_last();
        let before = split(front, sep);
        lemma_split_push(front, s.last(), sep);
        lemma_join_split(front, sep);
        if s.last() == sep {
            assert(before.push(Seq::empty()).drop_last() == before);
        } else {
            let grown = before.last().push(s.last());
            if before.len() > 1 {
                assert(before.drop_last().push(grown).drop_last() == before.drop_last());
            }
        }
    }
}

/// Splitting undoes joining: pieces that are free of the separator, at least
/// one of them, are what their join splits into. With [`lemma_split_pieces`]
/// and [`lemma_join_split`] this makes the split of a sequence the one way to
/// cut it at every separator.
pub proof fn lemma_split_join(parts: Seq<Seq<char>>, sep: char)
    requires
        parts.len() >= 1,
        forall|k: int, i: int|
            0 <= k < parts.len() && 0 <= i < parts[k].len() ==> parts[k][i] != sep,
    ensures
        split(join(parts, sep), sep) == parts,
    decreases parts.len(),
{
    let last = parts.last();
    if parts.len() == 1 {
        lemma_split_extend(Seq::empty(), last, sep);
    } else {
        let front = parts.drop_last();
        let head = join(front, sep).push(sep);
        lemma_split_join(front, sep);
        lemma_split_push(join(front, sep), sep, sep);
        lemma_split_extend(head, last, sep);
    }
}

/// The trimmed length stops at a character that is not whitespace, and
/// everything behind it is whitespace.
pub proof fn lemma_trimmed_len(s: Seq<char>)
    ensures
        trimmed_len(s) <= s.len(),
        trimmed_len(s) > 0 ==> !is_whitespace(s[trimmed_len(s) - 1]),
        forall|i: int| trimmed_len(s) <= i < s.len() ==> is_whitespace(s[i]),
    decreases s.len(),
{
    if s.len() > 0 && is_whitespace(s.last()) {
        let front = s.drop_last();
        lemma_trimmed_len(front);
        assert forall|i: int| trimmed_len(s) <= i < s.len() implies is_whitespace(s[i]) by {
            if i < front.len() {
                assert(front[i] == s[i]);
            }
        }
    }
}

/// Appends `c` to `s`, through `String::push`, which adds the character at
/// the end and leaves what was there unchanged.
#[verifier::external_body]
fn push_char(s: &mut String, c: char)
    ensures
        final(s)@ == old(s)@.push(c),
{
    s.push(c)
}

/// The characters of a string, in order.
pub fn chars_of(s: &str) -> (r: Vec<char>)
    ensures
        r@ == s@,
{
    broadcast use vstd::string::group_string_axioms;

    let mut out: Vec<char> = Vec::new();
    let chars = s.chars();
    for c in it: chars
        invariant
            it.seq() == s@,
            out@ == s@.take(it.index()),
    {
        out.push(c);
    }
    out
}

/// The string made of the characters `chars[from..to]`.
pub fn string_of(chars: &Vec<char>, from: usize, to: usize) -> (r: String)
    requires
        from <= to <= chars.len(),
    ensures
        r@ == chars@.subrange(from as int, to as int),
{
    let mut out = String::new();
    let mut i: usize = from;
    while i < to
        invariant
            from <= i <= to <= chars.len(),
            out@ == chars@.subrange(from as int, i as int),
        decreases to - i,
    {
        push_char(&mut out, chars[i]);
        i += 1;
    }
    out
}

/// Whether `c` is whitespace.
pub fn whitespace(c: char) -> (r: bool)
    ensures
        r == is_whitespace(c),
{
    let n: u32 = c as u32;
    (0x09 <= n && n <= 0x0D) || n == 0x20 || n == 0x85 || n == 0xA0 || n == 0x1680 || (0x2000 <= n
        && n <= 0x200A) || n == 0x2028 || n == 0x2029 || n == 0x202F || n == 0x205F || n == 0x3000
}

/// The length of `chars` without its trailing run of whitespace.
pub fn trimmed_length(chars: &Vec<char>) -> (r: usize)
    ensures
        r == trimmed_len(chars@),
        r <= chars.len(),
{
    let mut end: usize = chars.len();
    assert(chars@.take(end as int) == chars@);
    while end > 0 && whitespace(chars[end - 1])
        invariant
            end <= chars.len(),
            trimmed_len(chars@) == trimmed_len(chars@.take(end as int)),
        decreases end,
    {
        assert(chars@.take(end as int).drop_last() == chars@.take(end - 1));
        end -= 1;
    }
    end
}

/// Whether `needle[from..to]` occurs in `hay` at position `at`.
fn occurs_here(hay: &Vec<char>, needle: &Vec<char>, from: usize, to: usize, at: usize) -> (r: bool)
    requires
        from <= to <= needle.len(),
        at + (to - from) <= hay.len(),
    ensures
        r == occurs_at(hay@, needle@.subrange(from as int, to as int), at as int),
{
    let len: usize = to - from;
    let ghost piece = needle@.subrange(from as int, to as int);
    let mut j: usize = 0;
    while j < len
        invariant
            j <= len,
            len == to - from,
            from <= to <= needle.len(),
            at + len <= hay.len(),
            piece == needle@.subrange(from as int, to as int),
            hay@.subrange(at as int, at + j) == piece.take(j as int),
        decreases len - j,
    {
        if hay[at + j] != needle[from + j] {
            assert(hay@.subrange(at as int, at + len)[j as int] != piece[j as int]);
            return false;
        }
        assert(hay@.subrange(at as int, at + j + 1) == hay@.subrange(at as int, at + j).push(
            hay@[at + j],
        ));
        j += 1;
    }
    assert(piece.take(len as int) == piece);
    true
}

/// Whether `needle[from..to]` occurs somewhere in `hay`.
pub fn contains_range(hay: &Vec<char>, needle: &Vec<char>, from: usize, to: usize) -> (r: bool)
    requires
        from <= to <= needle.len(),
    ensures
        r == contains(hay@, needle@.subrange(from as int, to as int)),
{
    let len: usize = to - from;
    let ghost piece = needle@.subrange(from as int, to as int);
    if len == 0 {
        assert(hay@.subrange(0, 0) == piece);
        assert(occurs_at(hay@, piece, 0));
        return true;
    }
    if len > hay.len() {
        return false;
    }
    let last: usize = hay.len() - len;
    let mut at: usize = 0;
    while at <= last
        invariant
            at <= last + 1,
            0 < len <= hay.len(),
            last == hay.len() - len,
            len == to - from,
            from <= to <= needle.len(),
            piece == needle@.subrange(from as int, to as int),
            forall|k: int| 0 <= k < at ==> !occurs_at(hay@, piece, k),
        decreases last + 1 - at,
    {
        if occurs_here(hay, needle, from, to, at) {
            return true;
        }
        at += 1;
    }
    false
}

} // verus!
