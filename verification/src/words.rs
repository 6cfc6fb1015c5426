//! Word extraction from strings, by scanning for space characters.
//!
//! `get_word` keeps the quirks of a hand-rolled scanner: the index it
//! remembers is that of the separating space itself, so every word after
//! the first is returned with its leading space, and a word index past the
//! last space yields the whole string.

use vstd::prelude::*;

verus! {

use vstd::string::StrSliceExecFns;

/// No character strictly before position `n` of `s` is a space.
pub open spec fn no_space_before(s: Seq<char>, n: int) -> bool {
    forall|j: int| 0 <= j < n ==> s[j] != ' '
}

/// The number of spaces among the first `n` characters of `s`.
pub open spec fn spaces_before(s: Seq<char>, n: int) -> int
    decreases n,
{
    if n <= 0 {
        0
    } else {
        spaces_before(s, n - 1) + if s[n - 1] == ' ' {
            1int
        } else {
            0int
        }
    }
}

/// The index of the last space among the first `n` characters of `s`, or
/// 0 when there is none.
pub open spec fn last_space_before(s: Seq<char>, n: int) -> int
    decreases n,
{
    if n <= 0 {
        0
    } else if s[n - 1] == ' ' {
        n - 1
    } else {
        last_space_before(s, n - 1)
    }
}

/// Space counts never decrease as the scanned prefix grows.
pub proof fn lemma_spaces_before_mono(s: Seq<char>, a: int, b: int)
    requires
        a <= b,
    ensures
        spaces_before(s, a) <= spaces_before(s, b),
    decreases b - a,
{
    if a < b {
        lemma_spaces_before_mono(s, a, b - 1);
    }
}

/// Returns the prefix of `s` up to (excluding) its first space, or all of
/// `s` when it has no space.
pub fn first_word<'a>(s: &'a str) -> (word: &'a str)
    ensures
        no_space_before(s@, s@.len() as int) ==> word@ == s@,
        forall|i: int|
            (0 <= i < s@.len() && s@[i] == ' ' && no_space_before(s@, i)) ==> word@
                == s@.subrange(0, i),
{
    let n = s.unicode_len();
    let mut i: usize = 0;
    while i < n
        invariant
            0 <= i <= n == s@.len(),
            no_space_before(s@, i as int),
        decreases n - i,
    {
        if s.get_char(i) == ' ' {
            return s.substring_char(0, i);
        }
        i = i + 1;
    }
    s
}

/// Returns word number `word` of `s`, counting from 0.
///
/// The scanner returns at the space that closes word number `word`; the
/// slice it hands back starts at the previous space (so words after the
/// first carry their leading space). When `word` is negative, or the text
/// has no space after the requested word, the whole string is returned.
pub fn get_word<'a>(s: &'a str, word: i32) -> (found: &'a str)
    requires
        s@.len() < i32::MAX,
    ensures
        (word < 0 || spaces_before(s@, s@.len() as int) <= word) ==> found@ == s@,
        forall|i: int|
            (0 <= i < s@.len() && s@[i] == ' ' && spaces_before(s@, i) == word) ==> found@
                == s@.subrange(last_space_before(s@, i), i),
{
    let n = s.unicode_len();
    let mut words_found: i32 = 0;
    let mut last_index: usize = 0;
    let mut i: usize = 0;
    while i < n
        invariant
            0 <= i <= n == s@.len() < i32::MAX,
            words_found == spaces_before(s@, i as int),
            word >= 0 ==> words_found <= word,
            word < 0 ==> 0 <= words_found <= i,
            last_index as int == last_space_before(s@, i as int),
            last_index <= i,
        decreases n - i,
    {
        if s.get_char(i) == ' ' {
            if words_found == word {
                proof {
                    lemma_spaces_before_mono(s@, 0, i as int);
                    lemma_spaces_before_mono(s@, i as int + 1, s@.len() as int);
                    assert forall|j: int|
                        (0 <= j < s@.len() && s@[j] == ' ' && spaces_before(s@, j)
                            == word) implies j == i as int by {
                        if j < i as int {
                            lemma_spaces_before_mono(s@, j + 1, i as int);
                        }
                        if j > i as int {
                            lemma_spaces_before_mono(s@, i as int + 1, j);
                        }
                    }
                }
                return s.substring_char(last_index, i);
            }
            words_found = words_found + 1;
            last_index = i;
        }
        i = i + 1;
    }
    proof {
        assert forall|j: int|
            !(0 <= j < s@.len() && s@[j] == ' ' && spaces_before(s@, j) == word) by {
            if 0 <= j < s@.len() && s@[j] == ' ' {
                lemma_spaces_before_mono(s@, 0, j);
                lemma_spaces_before_mono(s@, j + 1, s@.len() as int);
            }
        }
    }
    s
}

} // verus!
