use vstd::prelude::*;
use crate::decimal::push_char;

verus! {

/// Whether two texts hold the same characters.
pub fn same_text(a: &str, b: &str) -> (res: bool)
    ensures
        res == (a@ == b@),
{
    let n = a.unicode_len();
    if n != b.unicode_len() {
        return false;
    }
    let mut i: usize = 0;
    while i < n
        invariant
            n == a@.len(),
            n == b@.len(),
            i <= n,
            forall|j: int| 0 <= j < i ==> a@[j] == b@[j],
        decreases n - i,
    {
        if a.get_char(i) != b.get_char(i) {
            return false;
        }
        i = i + 1;
    }
    assert(a@ =~= b@);
    true
}

/// Whether the text holds the character `c`.
pub fn has_char(s: &str, c: char) -> (res: bool)
    ensures
        res == s@.contains(c),
{
    let n = s.unicode_len();
    let mut i: usize = 0;
    while i < n
        invariant
            n == s@.len(),
            i <= n,
            forall|j: int| 0 <= j < i ==> s@[j] != c,
        decreases n - i,
    {
        if s.get_char(i) == c {
            assert(s@[i as int] == c);
            return true;
        }
        i = i + 1;
    }
    false
}

/// `part` occurs in `text`: some run of consecutive characters of `text`
/// is `part`.
pub open spec fn holds_text(text: Seq<char>, part: Seq<char>) -> bool {
    exists|i: int|
        0 <= i && i + part.len() <= text.len() && #[trigger] text.subrange(i, i + part.len())
            == part
}

fn matches_at(text: &str, part: &str, i: usize) -> (b: bool)
    requires
        i + part@.len() <= text@.len(),
    ensures
        b == (text@.subrange(i as int, i + part@.len()) == part@),
{
    let n = part.unicode_len();
    let tl = text.unicode_len();
    let mut j: usize = 0;
    while j < n
        invariant
            n == part@.len(),
            tl == text@.len(),
            i + n <= tl,
            j <= n,
            forall|q: int| 0 <= q < j ==> text@[i + q] == part@[q],
        decreases n - j,
    {
        if text.get_char(i + j) != part.get_char(j) {
            assert(text@.subrange(i as int, i + n)[j as int] != part@[j as int]);
            return false;
        }
        j = j + 1;
    }
    assert(text@.subrange(i as int, i + n) =~= part@);
    true
}

/// Whether `part` occurs in `text`, as `str::contains` tells.
pub fn contains_text(text: &str, part: &str) -> (b: bool)
    ensures
        b == holds_text(text@, part@),
{
    let tl = text.unicode_len();
    let pl = part.unicode_len();
    if pl > tl {
        return false;
    }
    let last = tl - pl;
    let mut i: usize = 0;
    while i < last
        invariant
            tl == text@.len(),
            pl == part@.len(),
            last == tl - pl,
            i <= last,
            forall|q: int| 0 <= q < i ==> #[trigger] text@.subrange(q, q + pl) != part@,
        decreases last - i,
    {
        if matches_at(text, part, i) {
            assert(text@.subrange(i as int, i + pl) == part@);
            return true;
        }
        i = i + 1;
    }
    if matches_at(text, part, last) {
        assert(text@.subrange(last as int, last + pl) == part@);
        return true;
    }
    proof {
        if holds_text(text@, part@) {
            let q = choose|q: int|
                0 <= q && q + part@.len() <= text@.len() && #[trigger] text@.subrange(
                    q,
                    q + part@.len(),
                ) == part@;
            assert(text@.subrange(q, q + pl) != part@);
        }
    }
    false
}

/// The pieces `str::split(sep)` yields: the text cut at every occurrence of
/// `sep`, so `k` occurrences give `k + 1` pieces, empty ones included.
pub open spec fn split_pieces(s: Seq<char>, sep: char) -> Seq<Seq<char>>
    decreases s.len(),
{
    if s.len() == 0 {
        seq![Seq::empty()]
    } else {
        let rest = split_pieces(s.drop_last(), sep);
        if s.last() == sep {
            rest.push(Seq::empty())
        } else {
            rest.update(rest.len() - 1, rest.last().push(s.last()))
        }
    }
}

/// There is always at least one piece, and a text that holds the separator
/// gives at least two.
pub proof fn lemma_split_pieces_len(s: Seq<char>, sep: char)
    ensures
        split_pieces(s, sep).len() >= 1,
        s.contains(sep) ==> split_pieces(s, sep).len() >= 2,
    decreases s.len(),
{
    if s.len() > 0 {
        lemma_split_pieces_len(s.drop_last(), sep);
        if s.contains(sep) && s.last() != sep {
            let i = choose|i: int| 0 <= i < s.len() && s[i] == sep;
            assert(s.drop_last()[i] == sep);
        }
    }
}

/// Cuts the text at every occurrence of `sep`, as `str::split` does.
pub fn split_on(s: &str, sep: char) -> (pieces: Vec<String>)
    ensures
        pieces.deep_view() == split_pieces(s@, sep),
{
    let n = s.unicode_len();
    let mut pieces: Vec<String> = Vec::new();
    let mut current = String::new();
    let mut i: usize = 0;
    assert(s@.take(0) =~= Seq::<char>::empty());
    assert(pieces.deep_view().push(current@) =~= split_pieces(s@.take(0), sep));
    while i < n
        invariant
            n == s@.len(),
            i <= n,
            pieces.deep_view().push(current@) == split_pieces(s@.take(i as int), sep),
        decreases n - i,
    {
        let c = s.get_char(i);
        let ghost before = pieces.deep_view().push(current@);
        assert(s@.take(i + 1).drop_last() =~= s@.take(i as int));
        if c == sep {
            let done = current;
            pieces.push(done);
            current = String::new();
            assert(pieces.deep_view().push(current@) =~= before.push(Seq::empty()));
        } else {
            push_char(&mut current, c);
            assert(pieces.deep_view().push(current@) =~= before.update(
                before.len() - 1,
                before.last().push(c),
            ));
        }
        i = i + 1;
    }
    assert(s@.take(n as int) =~= s@);
    let ghost before = pieces.deep_view();
    pieces.push(current);
    assert(pieces.deep_view() =~= before.push(current@));
    pieces
}

/// The UTF-16 code units of one character.
pub open spec fn utf16_units(c: char) -> Seq<u16> {
    let v = c as int;
    if v < 0x10000 {
        seq![v as u16]
    } else {
        seq![(0xD800 + (v - 0x10000) / 1024) as u16, (0xDC00 + (v - 0x10000) % 1024) as u16]
    }
}

/// The UTF-16 encoding of a text, as `str::encode_utf16` yields it.
pub open spec fn utf16_of(s: Seq<char>) -> Seq<u16>
    decreases s.len(),
{
    if s.len() == 0 {
        Seq::empty()
    } else {
        utf16_of(s.drop_last()) + utf16_units(s.last())
    }
}

/// The text in UTF-16 followed by a terminating zero, as Windows wants it.
pub fn convert_u16(s: &str) -> (v: Vec<u16>)
    ensures
        v@ == utf16_of(s@).push(0u16),
{
    let n = s.unicode_len();
    let mut v: Vec<u16> = Vec::new();
    let mut i: usize = 0;
    assert(s@.take(0) =~= Seq::<char>::empty());
    while i < n
        invariant
            n == s@.len(),
            i <= n,
            v@ == utf16_of(s@.take(i as int)),
        decreases n - i,
    {
        let c = s.get_char(i);
        let code = c as u32;
        assert(s@.take(i + 1).drop_last() =~= s@.take(i as int));
        let ghost before = v@;
        if code < 0x10000 {
            v.push(code as u16);
        } else {
            let rest = code - 0x10000;
            v.push((0xD800 + rest / 1024) as u16);
            v.push((0xDC00 + rest % 1024) as u16);
        }
        assert(v@ =~= before + utf16_units(c));
        i = i + 1;
    }
    assert(s@.take(n as int) =~= s@);
    v.push(0u16);
    v
}

} // verus!
