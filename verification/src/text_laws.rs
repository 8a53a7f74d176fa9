//! What the functions on texts do.
use vstd::prelude::*;

use crate::sequences::{lemma_flat_map_empty, lemma_flat_map_last};
use crate::text::{decimal, is_blank, is_white_space, joined, trim_end, trim_start, trimmed};
use crate::types::{text_blocks, BlockView};

verus! {

/// Whether `s` is made up of `words`, in their order and each whole, with `sep` between
/// neighbours and nothing else: word `i` is at position `at[i]`.
pub open spec fn is_laid_out(s: Seq<char>, words: Seq<Seq<char>>, sep: Seq<char>, at: Seq<int>) -> bool {
    &&& at.len() == words.len()
    &&& forall|i: int|
        0 <= i < words.len() ==> {
            &&& 0 <= #[trigger] at[i] <= s.len() - words[i].len()
            &&& s.subrange(at[i], at[i] + words[i].len()) == words[i]
        }
    &&& forall|i: int|
        0 < i < words.len() ==> {
            &&& #[trigger] at[i] == at[i - 1] + words[i - 1].len() + sep.len()
            &&& s.subrange(at[i] - sep.len(), at[i]) == sep
        }
    &&& words.len() == 0 ==> s.len() == 0
    &&& words.len() > 0 ==> at[0] == 0 && at.last() + words.last().len() == s.len()
}

/// Joined texts are all there, in their order, with the separator between neighbours and nothing
/// else.
pub proof fn law_joined_is_laid_out(words: Seq<Seq<char>>, sep: Seq<char>) -> (at: Seq<int>)
    ensures
        is_laid_out(joined(words, sep), words, sep, at),
    decreases words.len(),
{
    let s = joined(words, sep);
    if words.len() == 0 {
        Seq::empty()
    } else if words.len() == 1 {
        let at = seq![0int];
        assert(s.subrange(0, s.len() as int) =~= words[0]);
        at
    } else {
        let front = words.drop_last();
        let before = joined(front, sep);
        let left = law_joined_is_laid_out(front, sep);
        let n = front.len() as int;
        let at = left.push((before.len() + sep.len()) as int);
        assert(s == before + sep + words.last());
        assert(words[n] == words.last());
        assert forall|i: int| 0 <= i < words.len() implies {
            &&& 0 <= #[trigger] at[i] <= s.len() - words[i].len()
            &&& s.subrange(at[i], at[i] + words[i].len()) == words[i]
        } by {
            if i < n {
                assert(left[i] == at[i] && front[i] == words[i]);
                assert(s.subrange(at[i], at[i] + words[i].len()) =~= before.subrange(
                    left[i],
                    left[i] + front[i].len(),
                ));
            } else {
                assert(s.subrange(at[i], at[i] + words[i].len()) =~= words[i]);
            }
        }
        assert forall|i: int| 0 < i < words.len() implies {
            &&& #[trigger] at[i] == at[i - 1] + words[i - 1].len() + sep.len()
            &&& s.subrange(at[i] - sep.len(), at[i]) == sep
        } by {
            assert(left[i - 1] == at[i - 1] && front[i - 1] == words[i - 1]);
            if i < n {
                assert(left[i] == at[i]);
                assert(s.subrange(at[i] - sep.len(), at[i]) =~= before.subrange(
                    left[i] - sep.len(),
                    left[i],
                ));
            } else {
                assert(left.last() == left[n - 1] && front.last() == front[n - 1]);
                assert(s.subrange(at[i] - sep.len(), at[i]) =~= sep);
            }
        }
        assert(left[0] == at[0]);
        at
    }
}

/// The number that digits stand for.
pub open spec fn number_of(digits: Seq<char>) -> int
    decreases digits.len(),
{
    if digits.len() == 0 {
        0
    } else {
        10 * number_of(digits.drop_last()) + (digits.last() as int - '0' as int)
    }
}

/// A number in decimal is digits only, begins with no zero but for zero itself, and can be read
/// back.
pub proof fn law_decimal_is_read_back(n: nat)
    ensures
        number_of(decimal(n)) == n,
        decimal(n).len() > 0,
        forall|i: int| 0 <= i < decimal(n).len() ==> '0' <= #[trigger] decimal(n)[i] <= '9',
        n > 0 ==> decimal(n)[0] != '0',
    decreases n,
{
    if n < 10 {
        assert(decimal(n).drop_last() =~= Seq::empty());
        reveal_with_fuel(number_of, 2);
    } else {
        law_decimal_is_read_back(n / 10);
        assert(decimal(n).drop_last() =~= decimal(n / 10));
        assert(decimal(n)[0] == decimal(n / 10)[0]);
    }
}

/// Trimming takes off white space and nothing else, and leaves none at either end.
pub proof fn law_trimming(s: Seq<char>) -> (cut: (int, int))
    ensures
        0 <= cut.0 <= cut.1 <= s.len(),
        trimmed(s) == s.subrange(cut.0, cut.1),
        forall|i: int| 0 <= i < cut.0 ==> is_white_space(#[trigger] s[i]),
        forall|i: int| cut.1 <= i < s.len() ==> is_white_space(#[trigger] s[i]),
        trimmed(s).len() > 0 ==> !is_white_space(trimmed(s)[0]) && !is_white_space(
            trimmed(s).last(),
        ),
        trimmed(s).len() == 0 <==> is_blank(s),
{
    let a = lemma_trim_start(s);
    let t = trim_start(s);
    let b = lemma_trim_end(t);
    assert(trimmed(s) =~= s.subrange(a, a + b));
    assert forall|i: int| a + b <= i < s.len() implies is_white_space(#[trigger] s[i]) by {
        assert(t[i - a] == s[i]);
    }
    if trimmed(s).len() > 0 {
        assert(trimmed(s)[0] == t[0]);
        assert(trimmed(s)[0] == s[a]);
        assert(!is_white_space(s[a]));
    } else {
        assert forall|i: int| 0 <= i < s.len() implies is_white_space(#[trigger] s[i]) by {
            if i >= a {
                assert(t[i - a] == s[i]);
            }
        }
    }
    (a, a + b)
}

proof fn lemma_trim_start(s: Seq<char>) -> (a: int)
    ensures
        0 <= a <= s.len(),
        trim_start(s) == s.skip(a),
        forall|i: int| 0 <= i < a ==> is_white_space(#[trigger] s[i]),
        a < s.len() ==> !is_white_space(s[a]),
    decreases s.len(),
{
    if s.len() > 0 && is_white_space(s[0]) {
        let rest = s.drop_first();
        let a = lemma_trim_start(rest);
        assert(rest.skip(a) =~= s.skip(a + 1));
        assert forall|i: int| 0 <= i < a + 1 implies is_white_space(#[trigger] s[i]) by {
            if i > 0 {
                assert(rest[i - 1] == s[i]);
            }
        }
        if a < rest.len() {
            assert(rest[a] == s[a + 1]);
        }
        a + 1
    } else {
        assert(s.skip(0) =~= s);
        0
    }
}

proof fn lemma_trim_end(s: Seq<char>) -> (b: int)
    ensures
        0 <= b <= s.len(),
        trim_end(s) == s.take(b),
        forall|i: int| b <= i < s.len() ==> is_white_space(#[trigger] s[i]),
        b > 0 ==> !is_white_space(s[b - 1]),
    decreases s.len(),
{
    if s.len() > 0 && is_white_space(s.last()) {
        let rest = s.drop_last();
        let b = lemma_trim_end(rest);
        assert(rest.take(b) =~= s.take(b));
        assert forall|i: int| b <= i < s.len() implies is_white_space(#[trigger] s[i]) by {
            if i < rest.len() {
                assert(rest[i] == s[i]);
            }
        }
        if b > 0 {
            assert(rest[b - 1] == s[b - 1]);
        }
        b
    } else {
        assert(s.take(s.len() as int) =~= s);
        s.len() as int
    }
}

/// Blanks, tabs and ends of lines are white space; characters that can be seen in ASCII are not.
pub proof fn law_white_space(c: char)
    ensures
        c == ' ' || c == '\t' || c == '\n' || c == '\r' ==> is_white_space(c),
        '!' <= c <= '~' ==> !is_white_space(c),
{
}

/// The texts among blocks are the texts of the text blocks, in their order.
pub proof fn law_texts_among_blocks(s: Seq<BlockView>)
    ensures
        text_blocks(s) == s.flat_map(
            |b: BlockView|
                match b {
                    BlockView::Text(t) => seq![t],
                    _ => Seq::empty(),
                },
        ),
    decreases s.len(),
{
    let f = |b: BlockView|
        match b {
            BlockView::Text(t) => seq![t],
            _ => Seq::empty(),
        };
    if s.len() == 0 {
        lemma_flat_map_empty(s, f);
    } else {
        law_texts_among_blocks(s.drop_last());
        lemma_flat_map_last(s, f);
        assert(text_blocks(s) =~= text_blocks(s.drop_last()) + f(s.last()));
    }
}

} // verus!
