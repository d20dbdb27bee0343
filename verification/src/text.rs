//! Text as sequences of characters: white space, words, trimming.

use vstd::prelude::*;
use vstd::string::*;

verus! {

/// The characters that separate words and that trimming removes: those that
/// Unicode marks `White_Space`.
pub open spec fn is_whitespace(c: char) -> bool {
    ||| '\u{9}' <= c <= '\u{d}'
    ||| c == ' '
    ||| c == '\u{85}'
    ||| c == '\u{a0}'
    ||| c == '\u{1680}'
    ||| '\u{2000}' <= c <= '\u{200a}'
    ||| c == '\u{2028}'
    ||| c == '\u{2029}'
    ||| c == '\u{202f}'
    ||| c == '\u{205f}'
    ||| c == '\u{3000}'
}

pub fn char_is_whitespace(c: char) -> (white: bool)
    ensures
        white == is_whitespace(c),
{
    ('\u{9}' <= c && c <= '\u{d}') || c == ' ' || c == '\u{85}' || c == '\u{a0}' || c == '\u{1680}'
        || ('\u{2000}' <= c && c <= '\u{200a}') || c == '\u{2028}' || c == '\u{2029}' || c
        == '\u{202f}' || c == '\u{205f}' || c == '\u{3000}'
}

/// The characters of a text, one by one.
pub fn chars_of(text: &str) -> (out: Vec<char>)
    ensures
        out@ == text@,
{
    let mut out: Vec<char> = Vec::new();
    for c in it: text.chars()
        invariant
            it.seq() == text@,
            out@ == it.seq().take(it.index() as int),
    {
        out.push(c);
        proof {
            assert(it.seq().take(it.index() + 1) =~= it.seq().take(it.index() as int).push(c));
        }
    }
    proof {
        assert(text@.take(text@.len() as int) =~= text@);
    }
    out
}

/// Whether two texts hold the same characters.
pub fn same_text(a: &str, b: &str) -> (same: bool)
    ensures
        same == (a@ == b@),
{
    let x = a.as_bytes();
    let y = b.as_bytes();
    proof {
        vstd::utf8::encode_utf8_decode_utf8(a@);
        vstd::utf8::encode_utf8_decode_utf8(b@);
    }
    if x.len() != y.len() {
        return false;
    }
    let mut i: usize = 0;
    while i < x.len()
        invariant
            i <= x.len(),
            x.len() == y.len(),
            x@ == a.spec_bytes(),
            y@ == b.spec_bytes(),
            forall|j: int| 0 <= j < i ==> x@[j] == y@[j],
        decreases x.len() - i,
    {
        if x[i] != y[i] {
            return false;
        }
        i += 1;
    }
    proof {
        assert(x@ =~= y@);
    }
    true
}

/// `text` without the white space it begins with.
pub open spec fn trim_start(text: Seq<char>) -> Seq<char>
    decreases text.len(),
{
    if text.len() > 0 && is_whitespace(text[0]) {
        trim_start(text.skip(1))
    } else {
        text
    }
}

/// `text` without the white space it ends with.
pub open spec fn trim_end(text: Seq<char>) -> Seq<char>
    decreases text.len(),
{
    if text.len() > 0 && is_whitespace(text.last()) {
        trim_end(text.drop_last())
    } else {
        text
    }
}

/// `text` without the white space at either end.
pub open spec fn trimmed(text: Seq<char>) -> Seq<char> {
    trim_end(trim_start(text))
}

/// Removes the white space at both ends of a text.
pub fn trim(text: &str) -> (out: &str)
    ensures
        out@ == trimmed(text@),
{
    let chars = chars_of(text);
    let n = chars.len();
    let mut a: usize = 0;
    proof {
        assert(text@.skip(0) =~= text@);
    }
    while a < n && char_is_whitespace(chars[a])
        invariant
            a <= n,
            n == text@.len(),
            chars@ == text@,
            trim_start(text@) == trim_start(text@.skip(a as int)),
        decreases n - a,
    {
        proof {
            assert(text@.skip(a as int).skip(1) =~= text@.skip(a + 1));
        }
        a += 1;
    }
    let mut b: usize = n;
    proof {
        assert(text@.subrange(a as int, n as int) =~= text@.skip(a as int));
    }
    while b > a && char_is_whitespace(chars[b - 1])
        invariant
            a <= b <= n,
            n == text@.len(),
            chars@ == text@,
            trimmed(text@) == trim_end(text@.subrange(a as int, b as int)),
        decreases b,
    {
        proof {
            assert(text@.subrange(a as int, b as int).drop_last() =~= text@.subrange(
                a as int,
                b - 1,
            ));
        }
        b -= 1;
    }
    text.substring_char(a, b)
}

/// How many characters stand at the start of `text` before its first white
/// space, or before its end.
pub open spec fn word_len(text: Seq<char>) -> nat
    decreases text.len(),
{
    if text.len() == 0 || is_whitespace(text[0]) {
        0
    } else {
        1 + word_len(text.skip(1))
    }
}

/// The words of `text`: its longest runs of characters that are not white
/// space, in order.
pub open spec fn words(text: Seq<char>) -> Seq<Seq<char>>
    decreases text.len(),
    via words_terminates
{
    if text.len() == 0 {
        Seq::empty()
    } else if is_whitespace(text[0]) {
        words(text.skip(1))
    } else {
        seq![text.take(word_len(text) as int)] + words(text.skip(word_len(text) as int))
    }
}

#[via_fn]
proof fn words_terminates(text: Seq<char>) {
    lemma_word_len_bound(text);
}

/// A word ends within the text.
pub proof fn lemma_word_len_bound(text: Seq<char>)
    ensures
        word_len(text) <= text.len(),
    decreases text.len(),
{
    if text.len() > 0 && !is_whitespace(text[0]) {
        lemma_word_len_bound(text.skip(1));
    }
}

/// Words written one after the other with a single space between them.
pub open spec fn joined(words: Seq<Seq<char>>) -> Seq<char>
    decreases words.len(),
{
    if words.len() == 0 {
        Seq::empty()
    } else if words.len() == 1 {
        words[0]
    } else {
        joined(words.drop_last()) + seq![' '] + words.last()
    }
}

/// The character sequences that a list of strings holds.
pub open spec fn texts(list: Seq<String>) -> Seq<Seq<char>> {
    list.map_values(|s: String| s@)
}

/// Splits a text at white space into its words.
pub fn split_words(text: &str) -> (out: Vec<String>)
    ensures
        texts(out@) == words(text@),
{
    let chars = chars_of(text);
    let n = chars.len();
    let mut out: Vec<String> = Vec::new();
    let mut i: usize = 0;
    proof {
        assert(text@.skip(0) =~= text@);
        assert(texts(out@) + words(text@) =~= words(text@));
    }
    while i < n
        invariant
            i <= n,
            n == text@.len(),
            chars@ == text@,
            words(text@) == texts(out@) + words(text@.skip(i as int)),
        decreases n - i,
    {
        let ghost rest = text@.skip(i as int);
        proof {
            assert(rest[0] == text@[i as int]);
            assert(rest.skip(1) =~= text@.skip(i + 1));
        }
        if char_is_whitespace(chars[i]) {
            i += 1;
        } else {
            let start = i;
            let mut j: usize = i + 1;
            while j < n && !char_is_whitespace(chars[j])
                invariant
                    start < j <= n,
                    n == text@.len(),
                    chars@ == text@,
                    word_len(text@.skip(start as int)) == (j - start) + word_len(
                        text@.skip(j as int),
                    ),
                decreases n - j,
            {
                proof {
                    assert(text@.skip(j as int)[0] == text@[j as int]);
                    assert(text@.skip(j as int).skip(1) =~= text@.skip(j + 1));
                }
                j += 1;
            }
            let word = text.substring_char(start, j);
            let owned = word.to_owned();
            proof {
                if j < n {
                    assert(text@.skip(j as int)[0] == text@[j as int]);
                }
                assert(word_len(rest) == j - start);
                assert(word@ =~= rest.take(word_len(rest) as int));
                assert(rest.skip(word_len(rest) as int) =~= text@.skip(j as int));
                assert(texts(out@.push(owned)) =~= texts(out@).push(word@));
                assert(texts(out@).push(word@) + words(text@.skip(j as int)) =~= texts(out@) + (
                seq![word@] + words(text@.skip(j as int))));
            }
            out.push(owned);
            i = j;
        }
    }
    proof {
        assert(texts(out@) + words(text@.skip(n as int)) =~= texts(out@));
    }
    out
}

/// Writes the words from position `start` on one after the other, with a
/// single space between them.
pub fn join_from(list: &Vec<String>, start: usize) -> (out: String)
    requires
        start <= list.len(),
    ensures
        out@ == joined(texts(list@).skip(start as int)),
{
    let mut out = String::new();
    let mut k: usize = start;
    let ghost all = texts(list@);
    proof {
        reveal_strlit(" ");
        assert(all.subrange(start as int, start as int) =~= Seq::<Seq<char>>::empty());
    }
    while k < list.len()
        invariant
            start <= k <= list.len(),
            all == texts(list@),
            " "@ == seq![' '],
            out@ == joined(all.subrange(start as int, k as int)),
        decreases list.len() - k,
    {
        let ghost before = all.subrange(start as int, k as int);
        let ghost after = all.subrange(start as int, k + 1);
        proof {
            assert(after.drop_last() =~= before);
            assert(after.last() == list@[k as int]@);
        }
        if k > start {
            out.append(" ");
        }
        out.append(list[k].as_str());
        proof {
            if k == start {
                assert(out@ =~= after[0]);
            }
        }
        k += 1;
    }
    proof {
        assert(all.subrange(start as int, k as int) =~= all.skip(start as int));
    }
    out
}

} // verus!
