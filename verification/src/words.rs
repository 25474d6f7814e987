//! Reading a line of text: its words, and the numbers written in them.

use vstd::prelude::*;
use crate::symbols::is_blank;

verus! {

/// The words of `text` that are complete, and the word that its end is in
/// (empty if its end is in no word). Words are the longest runs of
/// characters that are not white space.
pub open spec fn words_and_rest(text: Seq<char>) -> (Seq<Seq<char>>, Seq<char>)
    decreases text.len(),
{
    if text.len() == 0 {
        (Seq::empty(), Seq::empty())
    } else {
        let (done, word) = words_and_rest(text.drop_last());
        if !is_blank(text.last()) {
            (done, word.push(text.last()))
        } else if word.len() > 0 {
            (done.push(word), Seq::empty())
        } else {
            (done, Seq::empty())
        }
    }
}

/// The words of `text`, in order: what is left of it when it is cut at white
/// space of any length.
pub open spec fn words_of(text: Seq<char>) -> Seq<Seq<char>> {
    let (done, word) = words_and_rest(text);
    if word.len() > 0 {
        done.push(word)
    } else {
        done
    }
}

/// Whether `c` is one of the digits `0` to `9`.
pub open spec fn is_digit(c: char) -> bool {
    '0' <= c <= '9'
}

/// Whether `s` holds digits only.
pub open spec fn all_digits(s: Seq<char>) -> bool {
    forall|i: int| 0 <= i < s.len() ==> is_digit(#[trigger] s[i])
}

/// The number that the digits `s` write in base ten.
pub open spec fn value_of(s: Seq<char>) -> nat
    decreases s.len(),
{
    if s.len() == 0 {
        0
    } else {
        (value_of(s.drop_last()) * 10 + (s.last() as int - '0' as int)) as nat
    }
}

/// What is left of `word` when a `+` in front is dropped.
pub open spec fn unsigned(word: Seq<char>) -> Seq<char> {
    if word.len() > 0 && word[0] == '+' {
        word.drop_first()
    } else {
        word
    }
}

/// The number that `word` writes, if it writes one that is at most `max`: an
/// optional `+`, then one digit or more and nothing else.
pub open spec fn number_of(word: Seq<char>, max: nat) -> Option<nat> {
    let digits = unsigned(word);
    if digits.len() > 0 && all_digits(digits) && value_of(digits) <= max {
        Some(value_of(digits))
    } else {
        None
    }
}

/// A number written with more digits is no smaller.
pub proof fn lemma_value_grows(s: Seq<char>, n: int)
    requires
        0 <= n <= s.len(),
        all_digits(s),
    ensures
        value_of(s.take(n)) <= value_of(s),
    decreases s.len() - n,
{
    if n < s.len() {
        lemma_value_grows(s, n + 1);
        assert(s.take(n + 1).drop_last() == s.take(n));
    } else {
        assert(s.take(n) == s);
    }
}

/// Cuts `text` into its words (see [`words_of`]).
pub fn words(text: &str) -> (r: Vec<Vec<char>>)
    ensures
        r@.len() == words_of(text@).len(),
        forall|i: int| 0 <= i < r@.len() ==> (#[trigger] r@[i])@ == words_of(text@)[i],
{
    let mut done: Vec<Vec<char>> = Vec::new();
    let mut word: Vec<char> = Vec::new();
    for c in it: text.chars()
        invariant
            it.seq() == text@,
            done@.len() == words_and_rest(text@.take(it.index())).0.len(),
            forall|i: int|
                0 <= i < done@.len() ==> (#[trigger] done@[i])@ == words_and_rest(
                    text@.take(it.index()),
                ).0[i],
            word@ == words_and_rest(text@.take(it.index())).1,
    {
        proof {
            let read = text@.take(it.index());
            assert(text@.take(it.index() + 1).drop_last() == read);
        }
        if !c.is_whitespace() {
            word.push(c);
        } else if word.len() > 0 {
            done.push(word);
            word = Vec::new();
        }
    }
    proof {
        assert(text@.take(text@.len() as int) == text@);
    }
    if word.len() > 0 {
        done.push(word);
    }
    done
}

/// Whether `word` reads `name`.
pub fn word_is(word: &Vec<char>, name: &str) -> (same: bool)
    ensures
        same == (word@ == name@),
{
    let n: usize = name.unicode_len();
    if word.len() != n {
        return false;
    }
    let mut i: usize = 0;
    while i < n
        invariant
            i <= n,
            n == word@.len(),
            n == name@.len(),
            forall|k: int| 0 <= k < i ==> word@[k] == name@[k],
        decreases n - i,
    {
        if word[i] != name.get_char(i) {
            return false;
        }
        i = i + 1;
    }
    assert(word@ =~= name@);
    true
}

/// Reads the number that `word` writes (see [`number_of`]).
pub fn parse_number(word: &Vec<char>, max: u32) -> (r: Option<u32>)
    ensures
        match number_of(word@, max as nat) {
            Some(n) => r == Some(n as u32),
            None => r is None,
        },
{
    let start: usize = if word.len() > 0 && word[0] == '+' {
        1
    } else {
        0
    };
    let ghost digits = unsigned(word@);
    if start == word.len() {
        return None;
    }
    let mut value: u64 = 0;
    let mut i: usize = start;
    while i < word.len()
        invariant
            start <= i <= word@.len(),
            digits == unsigned(word@),
            digits.len() == word@.len() - start,
            forall|k: int| 0 <= k < digits.len() ==> digits[k] == word@[start + k],
            all_digits(digits.take(i - start)),
            value == value_of(digits.take(i - start)),
            value <= max,
        decreases word@.len() - i,
    {
        let c: char = word[i];
        proof {
            assert(digits.take(i - start + 1).drop_last() == digits.take(i - start));
        }
        if c < '0' || c > '9' {
            proof {
                assert(!is_digit(digits[i - start]));
            }
            return None;
        }
        let d: u64 = (c as u32 - '0' as u32) as u64;
        value = value * 10 + d;
        proof {
            assert forall|k: int| 0 <= k < i - start + 1 implies is_digit(
                #[trigger] digits.take(i - start + 1)[k],
            ) by {}
        }
        if value > max as u64 {
            proof {
                if all_digits(digits) {
                    lemma_value_grows(digits, i - start + 1);
                }
            }
            return None;
        }
        i = i + 1;
    }
    proof {
        assert(digits.take(digits.len() as int) == digits);
    }
    Some(value as u32)
}

} // verus!
