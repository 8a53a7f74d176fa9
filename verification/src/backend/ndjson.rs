//! Lines of JSON.
use vstd::prelude::*;

use crate::text::{
    find_text, holds_at, is_first_occurrence, lemma_first_occurrence, lemma_occurs_first, occurs,
    trim_text, trimmed,
};

verus! {

/// The first complete line, without the white space at its ends, and what follows it, if there
/// is one.
pub open spec fn first_json_line(text: Seq<char>) -> Option<(Seq<char>, Seq<char>)> {
    if occurs(text, "\n"@) {
        let i = choose|i: int| is_first_occurrence(text, "\n"@, i);
        Some((trimmed(text.take(i)), text.skip(i + 1)))
    } else {
        None
    }
}

/// The first complete line, without the white space at its ends, and what follows it, if there
/// is one.
pub fn split_line(text: &str) -> (r: Option<(String, String)>)
    ensures
        match r {
            Some((line, rest)) => first_json_line(text@) == Some((line@, rest@)),
            None => first_json_line(text@) is None,
        },
{
    let len: usize = text.unicode_len();
    match find_text(text, "\n") {
        Some(i) => {
            proof {
                reveal_strlit("\n");
                assert(holds_at(text@, "\n"@, i as int));
                lemma_first_occurrence(text@, "\n"@, i as int);
            }
            let raw = text.substring_char(0, i);
            assert(raw@ =~= text@.take(i as int));
            let line = trim_text(raw).to_owned();
            let rest = text.substring_char(i + 1, len).to_owned();
            assert(rest@ =~= text@.skip(i + 1));
            Some((line, rest))
        },
        None => None,
    }
}

/// Text that follows a complete line does not change that line: it follows what followed.
pub proof fn law_line_is_stable(text: Seq<char>, more: Seq<char>)
    requires
        first_json_line(text) is Some,
    ensures
        ({
            let (line, rest) = first_json_line(text).unwrap();
            &&& first_json_line(text + more) == Some((line, rest + more))
            &&& rest.len() < text.len()
        }),
{
    reveal_strlit("\n");
    let w = choose|w: int| #[trigger] holds_at(text, "\n"@, w);
    lemma_occurs_first(text, "\n"@, w);
    let i = choose|i: int| is_first_occurrence(text, "\n"@, i);
    let long = text + more;
    assert(long.subrange(i, i + 1) =~= text.subrange(i, i + 1));
    assert(holds_at(long, "\n"@, i));
    assert forall|j: int| 0 <= j < i implies !#[trigger] holds_at(long, "\n"@, j) by {
        assert(long.subrange(j, j + 1) =~= text.subrange(j, j + 1));
        assert(!holds_at(text, "\n"@, j));
    }
    lemma_first_occurrence(long, "\n"@, i);
    assert(long.take(i) =~= text.take(i));
    assert(long.skip(i + 1) =~= text.skip(i + 1) + more);
}

} // verus!
