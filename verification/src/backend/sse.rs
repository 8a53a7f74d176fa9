//! Server-sent events: frames that end in an empty line.
use vstd::prelude::*;

use crate::text::{
    find_text, holds_at, is_first_occurrence, lemma_first_occurrence, occurs, starts_with_text,
};

verus! {

/// The position of the first line feed, or the length where there is none.
pub open spec fn line_end(text: Seq<char>) -> int
    decreases text.len(),
{
    if text.len() == 0 || text[0] == '\n' {
        0
    } else {
        1 + line_end(text.drop_first())
    }
}

/// The first line, without the line feed at its end or the carriage return before that.
pub open spec fn first_line(text: Seq<char>) -> Seq<char> {
    let end = line_end(text);
    if 0 < end < text.len() && text[end - 1] == '\r' {
        text.take(end - 1)
    } else {
        text.take(end)
    }
}

proof fn lemma_line_end(text: Seq<char>)
    ensures
        0 <= line_end(text) <= text.len(),
        line_end(text) < text.len() ==> text[line_end(text)] == '\n',
        forall|i: int| 0 <= i < line_end(text) ==> text[i] != '\n',
    decreases text.len(),
{
    if text.len() > 0 && text[0] != '\n' {
        let rest = text.drop_first();
        lemma_line_end(rest);
        assert forall|i: int| 0 <= i < line_end(text) implies text[i] != '\n' by {
            if i > 0 {
                assert(text[i] == rest[i - 1]);
            }
        }
        if line_end(text) < text.len() {
            assert(text[line_end(text)] == rest[line_end(rest)]);
        }
    }
}

proof fn lemma_line_end_is(text: Seq<char>, end: int)
    requires
        0 <= end <= text.len(),
        end < text.len() ==> text[end] == '\n',
        forall|i: int| 0 <= i < end ==> text[i] != '\n',
    ensures
        line_end(text) == end,
{
    lemma_line_end(text);
}

/// The lines of a text.
pub open spec fn lines(text: Seq<char>) -> Seq<Seq<char>>
    decreases text.len(),
    via lines_decrease
{
    if text.len() == 0 {
        Seq::empty()
    } else if line_end(text) >= text.len() {
        seq![text]
    } else {
        seq![first_line(text)] + lines(text.skip(line_end(text) + 1))
    }
}

#[via_fn]
proof fn lines_decrease(text: Seq<char>) {
    lemma_line_end(text);
}

/// What follows "data: " in the first line that begins so, if there is one.
pub open spec fn data_of(lines: Seq<Seq<char>>) -> Option<Seq<char>>
    decreases lines.len(),
{
    if lines.len() == 0 {
        None
    } else if holds_at(lines[0], "data: "@, 0) {
        Some(lines[0].skip("data: "@.len() as int))
    } else {
        data_of(lines.drop_first())
    }
}

/// The data of a frame: what follows "data: " in the first line that begins so.
pub fn extract_sse_data(event_text: &str) -> (r: Option<&str>)
    ensures
        match r {
            Some(data) => data_of(lines(event_text@)) == Some(data@),
            None => data_of(lines(event_text@)) is None,
        },
{
    let total: usize = event_text.unicode_len();
    let mut rest = event_text;
    let mut left: usize = total;
    while left > 0
        invariant
            left == rest@.len(),
            data_of(lines(event_text@)) == data_of(lines(rest@)),
        decreases left,
    {
        proof {
            reveal_strlit("\n");
            lemma_line_end(rest@);
        }
        let (line, next): (&str, &str) = match find_text(rest, "\n") {
            Some(end) => {
                proof {
                    lemma_line_feed_found(rest@, end as int);
                }
                let cut: usize = if end > 0 && rest.get_char(end - 1) == '\r' {
                    end - 1
                } else {
                    end
                };
                (rest.substring_char(0, cut), rest.substring_char(end + 1, left))
            },
            None => {
                proof {
                    lemma_line_feed_missing(rest@);
                }
                (rest, rest.substring_char(left, left))
            },
        };
        proof {
            lemma_step_lines(rest@, line@, next@);
        }
        if starts_with_text(line, "data: ") {
            proof {
                reveal_strlit("data: ");
            }
            return Some(line.substring_char(6, line.unicode_len()));
        }
        rest = next;
        left = rest.unicode_len();
    }
    None
}

proof fn lemma_line_feed_found(text: Seq<char>, end: int)
    requires
        is_first_occurrence(text, "\n"@, end),
    ensures
        line_end(text) == end < text.len(),
{
    reveal_strlit("\n");
    assert(text.subrange(end, end + 1)[0] == text[end]);
    assert forall|i: int| 0 <= i < end implies text[i] != '\n' by {
        if text[i] == '\n' {
            assert(text.subrange(i, i + 1) =~= "\n"@);
            assert(holds_at(text, "\n"@, i));
        }
    }
    lemma_line_end_is(text, end);
}

proof fn lemma_line_feed_missing(text: Seq<char>)
    requires
        !occurs(text, "\n"@),
    ensures
        line_end(text) == text.len(),
{
    reveal_strlit("\n");
    assert forall|i: int| 0 <= i < text.len() implies text[i] != '\n' by {
        if text[i] == '\n' {
            assert(text.subrange(i, i + 1) =~= "\n"@);
            assert(holds_at(text, "\n"@, i));
        }
    }
    lemma_line_end_is(text, text.len() as int);
}

proof fn lemma_step_lines(text: Seq<char>, line: Seq<char>, next: Seq<char>)
    requires
        text.len() > 0,
        ({
            let end = line_end(text);
            if end < text.len() {
                line == first_line(text) && next == text.skip(end + 1)
            } else {
                line == text && next.len() == 0
            }
        }),
    ensures
        lines(text) == seq![line] + lines(next),
        data_of(lines(text)) == if holds_at(line, "data: "@, 0) {
            Some(line.skip("data: "@.len() as int))
        } else {
            data_of(lines(next))
        },
{
    lemma_line_end(text);
    if line_end(text) >= text.len() {
        assert(lines(next) =~= Seq::empty());
        assert(seq![line] + lines(next) =~= seq![text]);
    }
    assert(lines(text)[0] == line);
    assert(lines(text).drop_first() =~= lines(next));
}

/// The first complete frame and what follows it, if there is one.
pub open spec fn first_frame(text: Seq<char>) -> Option<(Seq<char>, Seq<char>)> {
    if occurs(text, "\n\n"@) {
        let i = choose|i: int| is_first_occurrence(text, "\n\n"@, i);
        Some((text.take(i), text.skip(i + 2)))
    } else {
        None
    }
}

/// The first complete frame and what follows it, if there is one.
pub fn split_frame(text: &str) -> (r: Option<(String, String)>)
    ensures
        match r {
            Some((frame, rest)) => first_frame(text@) == Some((frame@, rest@)),
            None => first_frame(text@) is None,
        },
{
    let len: usize = text.unicode_len();
    match find_text(text, "\n\n") {
        Some(i) => {
            proof {
                reveal_strlit("\n\n");
                assert(holds_at(text@, "\n\n"@, i as int));
                lemma_first_occurrence(text@, "\n\n"@, i as int);
            }
            let frame = text.substring_char(0, i).to_owned();
            let rest = text.substring_char(i + 2, len).to_owned();
            assert(frame@ =~= text@.take(i as int));
            assert(rest@ =~= text@.skip(i + 2));
            Some((frame, rest))
        },
        None => None,
    }
}

/// Text that follows a complete frame does not change that frame: it follows what followed.
pub proof fn law_frame_is_stable(text: Seq<char>, more: Seq<char>)
    requires
        first_frame(text) is Some,
    ensures
        ({
            let (frame, rest) = first_frame(text).unwrap();
            &&& first_frame(text + more) == Some((frame, rest + more))
            &&& rest.len() < text.len()
        }),
{
    reveal_strlit("\n\n");
    let w = choose|w: int| #[trigger] holds_at(text, "\n\n"@, w);
    crate::text::lemma_occurs_first(text, "\n\n"@, w);
    let i = choose|i: int| is_first_occurrence(text, "\n\n"@, i);
    let long = text + more;
    assert(long.subrange(i, i + 2) =~= text.subrange(i, i + 2));
    assert(holds_at(long, "\n\n"@, i));
    assert forall|j: int| 0 <= j < i implies !#[trigger] holds_at(long, "\n\n"@, j) by {
        assert(long.subrange(j, j + 2) =~= text.subrange(j, j + 2));
        assert(!holds_at(text, "\n\n"@, j));
    }
    lemma_first_occurrence(long, "\n\n"@, i);
    assert(long.take(i) =~= text.take(i));
    assert(long.skip(i + 2) =~= text.skip(i + 2) + more);
}

} // verus!
