use vstd::prelude::*;
use crate::config::{parse_i32, parsed_i32};
use crate::text::{has_char, lemma_split_pieces_len, same_text, split_on, split_pieces};

verus! {

/// A word of the `xdpyinfo` output that gives the screen size: it holds an
/// `x`, is not `pixels`, and holds no parenthesis.
pub open spec fn is_size_word(word: Seq<char>) -> bool {
    &&& word.contains('x')
    &&& word != "pixels"@
    &&& !word.contains('(')
    &&& !word.contains(')')
}

/// The width and height written in a size word (`WIDTHxHEIGHT`), or nothing
/// when either does not parse.
pub open spec fn size_in_word(word: Seq<char>) -> Option<(i32, i32)> {
    let parts = split_pieces(word, 'x');
    match (parsed_i32(parts[0]), parsed_i32(parts[1])) {
        (Some(w), Some(h)) => Some((w, h)),
        _ => None,
    }
}

/// The screen size after reading `words` in order from `start`: each size
/// word replaces the size; an unreadable one ends the reading with nothing.
pub open spec fn scan_sizes(words: Seq<Seq<char>>, start: Option<(i32, i32)>) -> Option<(i32, i32)>
    decreases words.len(),
{
    if words.len() == 0 {
        start
    } else {
        match scan_sizes(words.drop_last(), start) {
            None => None,
            Some(size) => if is_size_word(words.last()) {
                size_in_word(words.last())
            } else {
                Some(size)
            },
        }
    }
}

/// The screen size the `dimensions` line of `xdpyinfo` gives: the last size
/// word among its space-separated words, 1920x1200 when there is none, and
/// nothing when a size word does not parse.
pub open spec fn screen_size(text: Seq<char>) -> Option<(i32, i32)> {
    scan_sizes(split_pieces(text, ' '), Some((1920, 1200)))
}

fn read_size_word(word: &str) -> (res: Option<(i32, i32)>)
    requires
        word@.contains('x'),
    ensures
        res == size_in_word(word@),
{
    let parts = split_on(word, 'x');
    proof {
        lemma_split_pieces_len(word@, 'x');
        assert(parts.deep_view()[0] == parts[0]@);
        assert(parts.deep_view()[1] == parts[1]@);
    }
    let w = parse_i32(parts[0].as_str());
    let h = parse_i32(parts[1].as_str());
    match (w, h) {
        (Some(w), Some(h)) => Some((w, h)),
        _ => None,
    }
}

/// Reads the screen size from the `dimensions` line of `xdpyinfo`; `None`
/// when a word that looks like a size does not parse.
pub fn screen_size_from_xdpyinfo(text: &str) -> (res: Option<(i32, i32)>)
    ensures
        res == screen_size(text@),
{
    let words = split_on(text, ' ');
    let ghost all = words.deep_view();
    let mut size: (i32, i32) = (1920, 1200);
    let mut i: usize = 0;
    assert(all.take(0) =~= Seq::<Seq<char>>::empty());
    while i < words.len()
        invariant
            all == words.deep_view(),
            all == split_pieces(text@, ' '),
            i <= words.len(),
            scan_sizes(all.take(i as int), Some((1920, 1200))) == Some(size),
        decreases words.len() - i,
    {
        let word = words[i].as_str();
        assert(all.take(i + 1).drop_last() =~= all.take(i as int));
        assert(all.take(i + 1).last() == word@);
        if has_char(word, 'x') && !same_text(word, "pixels") && !has_char(word, '(') && !has_char(
            word,
            ')',
        ) {
            match read_size_word(word) {
                Some(s) => {
                    size = s;
                },
                None => {
                    proof {
                        assert(scan_sizes(all.take(i + 1), Some((1920, 1200))) is None);
                        lemma_scan_stays_none(all, i + 1);
                    }
                    return None;
                },
            }
        }
        i = i + 1;
    }
    assert(all.take(words.len() as int) =~= all);
    Some(size)
}

proof fn lemma_scan_stays_none(words: Seq<Seq<char>>, k: int)
    requires
        0 <= k <= words.len(),
        scan_sizes(words.take(k), Some((1920, 1200))) is None,
    ensures
        scan_sizes(words, Some((1920, 1200))) is None,
    decreases words.len() - k,
{
    if k < words.len() {
        assert(words.take(k + 1).drop_last() =~= words.take(k));
        lemma_scan_stays_none(words, k + 1);
    } else {
        assert(words.take(k) =~= words);
    }
}

} // verus!
