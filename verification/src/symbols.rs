//! The symbols of a move: its characters without the white space.

use vstd::prelude::*;

verus! {

/// Whether `char::is_whitespace` of the standard library holds of `c`.
pub uninterp spec fn is_blank(c: char) -> bool;

/// `char::is_whitespace` of the standard library.
///
/// Taken on trust: the answer depends on the character alone. Nothing is
/// claimed about which characters count as white space.
pub assume_specification[ char::is_whitespace ](c: char) -> (b: bool)
    ensures
        b == is_blank(c),
;

/// The characters of `text` that are not white space, in their order.
pub open spec fn symbols_of(text: Seq<char>) -> Seq<char> {
    text.filter(|c: char| !is_blank(c))
}

/// Reading one more character adds it to the symbols unless it is white
/// space.
pub proof fn lemma_symbols_of_push(text: Seq<char>, c: char)
    ensures
        symbols_of(text.push(c)) == if is_blank(c) {
            symbols_of(text)
        } else {
            symbols_of(text).push(c)
        },
{
    reveal(Seq::filter);
    assert(text.push(c).drop_last() == text);
}

/// Collects the symbols of `text`: white space is skipped and counts
/// neither towards the length of a move nor towards the indices reported in
/// errors.
pub fn symbols(text: &str) -> (r: Vec<char>)
    ensures
        r@ == symbols_of(text@),
{
    let mut out: Vec<char> = Vec::new();
    for c in it: text.chars()
        invariant
            it.seq() == text@,
            out@ == symbols_of(text@.take(it.index())),
    {
        proof {
            let read = text@.take(it.index());
            assert(text@.take(it.index() + 1) == read.push(c));
            lemma_symbols_of_push(read, c);
        }
        if !c.is_whitespace() {
            out.push(c);
        }
    }
    proof {
        assert(text@.take(text@.len() as int) == text@);
    }
    out
}

} // verus!
