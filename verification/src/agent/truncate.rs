//! Keeping tool output within a byte budget.
use vstd::prelude::*;
use vstd::utf8::*;

use crate::text::{chars_of, decimal, push_decimal};

verus! {

/// The number of bytes that a text takes in UTF-8.
pub open spec fn byte_len(s: Seq<char>) -> nat {
    encode_utf8(s).len()
}

/// The longest prefix of `s` that takes at most `max` bytes.
pub open spec fn prefix_within(s: Seq<char>, max: nat) -> Seq<char>
    decreases s.len(),
{
    if s.len() == 0 || byte_len(s) <= max {
        s
    } else {
        prefix_within(s.drop_last(), max)
    }
}

/// What stands in place of the part that was cut out.
pub open spec fn sentinel(total: nat, max: nat) -> Seq<char> {
    "\n\n[... output truncated: "@ + decimal(total) + " bytes elided (cap = "@ + decimal(max)
        + " bytes). Re-run with a narrower scope if more detail is needed ...]\n\n"@
}

/// A tool's output as it is kept in the conversation: unchanged where there is no limit or it
/// is met, otherwise its beginning and its end around a sentinel.
pub open spec fn truncated(content: Seq<char>, max: nat) -> Seq<char> {
    let total = byte_len(content);
    let mark = sentinel(total, max);
    if max == 0 || total <= max {
        content
    } else if byte_len(mark) >= max {
        prefix_within(content, max)
    } else {
        let available = (max - byte_len(mark)) as nat;
        let head = prefix_within(content, available / 2);
        let tail_target = (available - available / 2) as nat;
        let cut = prefix_within(content, (total - tail_target) as nat).len();
        let tail = content.skip(if cut < head.len() {
            head.len() as int
        } else {
            cut as int
        });
        prefix_within(head + mark + tail, max)
    }
}

/// The number of bytes that a character takes in UTF-8.
fn char_width(c: char) -> (r: usize)
    ensures
        r == encode_scalar(c as u32).len(),
        1 <= r <= 4,
{
    let n: u32 = c as u32;
    proof {
        char_is_scalar(c);
    }
    if n <= 0x7f {
        1
    } else if n <= 0x7ff {
        2
    } else if n <= 0xffff {
        3
    } else {
        4
    }
}

proof fn lemma_byte_len_push(s: Seq<char>, c: char)
    ensures
        byte_len(s.push(c)) == byte_len(s) + encode_scalar(c as u32).len(),
    decreases s.len(),
{
    if s.len() == 0 {
        assert(s.push(c).drop_first() =~= Seq::<char>::empty());
        assert(s.push(c)[0] == c);
        assert(encode_utf8(s).len() == 0);
        assert(encode_utf8(Seq::<char>::empty()).len() == 0);
    } else {
        assert(s.push(c)[0] == s[0]);
        assert(s.push(c).drop_first() =~= s.drop_first().push(c));
        lemma_byte_len_push(s.drop_first(), c);
    }
}

proof fn lemma_byte_len_prefix(s: Seq<char>, k: int)
    requires
        0 <= k <= s.len(),
    ensures
        byte_len(s.take(k)) <= byte_len(s),
    decreases s.len() - k,
{
    if k < s.len() {
        lemma_byte_len_push(s.take(k), s[k]);
        assert(s.take(k).push(s[k]) =~= s.take(k + 1));
        lemma_byte_len_prefix(s, k + 1);
    } else {
        assert(s.take(k) =~= s);
    }
}

proof fn lemma_prefix_within_at(s: Seq<char>, max: nat, k: int)
    requires
        0 <= k <= s.len(),
        byte_len(s.take(k)) <= max,
        k < s.len() ==> byte_len(s.take(k + 1)) > max,
    ensures
        prefix_within(s, max) == s.take(k),
    decreases s.len(),
{
    if k == s.len() {
        assert(s.take(k) =~= s);
    } else {
        lemma_byte_len_prefix(s, k + 1);
        let front = s.drop_last();
        assert(front.take(k) =~= s.take(k));
        if k < front.len() {
            assert(front.take(k + 1) =~= s.take(k + 1));
        }
        lemma_prefix_within_at(front, max, k);
    }
}

/// The longest prefix within a budget is a prefix, and is within the budget.
pub proof fn lemma_prefix_within(s: Seq<char>, max: nat)
    ensures
        prefix_within(s, max).is_prefix_of(s),
        byte_len(prefix_within(s, max)) <= max,
    decreases s.len(),
{
    if s.len() == 0 {
        assert(encode_utf8(s).len() == 0);
    } else if byte_len(s) > max {
        lemma_prefix_within(s.drop_last(), max);
    }
}

/// How many characters the longest prefix of `v` within `max` bytes has.
fn prefix_count(v: &Vec<char>, max: usize) -> (k: usize)
    ensures
        k <= v.len(),
        v@.take(k as int) == prefix_within(v@, max as nat),
        k == prefix_within(v@, max as nat).len(),
{
    let mut k: usize = 0;
    let mut used: usize = 0;
    assert(v@.take(0) =~= Seq::<char>::empty());
    while k < v.len()
        invariant_except_break
            k <= v.len(),
            used == byte_len(v@.take(k as int)),
            used <= max,
        ensures
            k <= v.len(),
            byte_len(v@.take(k as int)) <= max,
            k < v.len() ==> byte_len(v@.take(k + 1)) > max,
        decreases v.len() - k,
    {
        let w: usize = char_width(v[k]);
        proof {
            lemma_byte_len_push(v@.take(k as int), v@[k as int]);
            assert(v@.take(k as int).push(v@[k as int]) =~= v@.take(k + 1));
        }
        if w > max - used {
            break;
        }
        used += w;
        k += 1;
    }
    proof {
        lemma_prefix_within_at(v@, max as nat, k as int);
    }
    k
}

/// Cuts a tool's output down to at most `max_bytes` bytes; zero means no limit.
pub fn truncate_tool_result(content: &str, max_bytes: u64) -> (r: String)
    ensures
        r@ == truncated(content@, max_bytes as nat),
        max_bytes > 0 ==> byte_len(r@) <= max_bytes,
{
    let total: usize = content.as_bytes().len();
    if max_bytes == 0 || total as u64 <= max_bytes {
        return content.to_owned();
    }
    let max: usize = max_bytes as usize;
    let mut mark = "\n\n[... output truncated: ".to_owned();
    push_decimal(&mut mark, total as u64);
    mark.append(" bytes elided (cap = ");
    push_decimal(&mut mark, max_bytes);
    mark.append(" bytes). Re-run with a narrower scope if more detail is needed ...]\n\n");
    assert(mark@ == sentinel(total as nat, max_bytes as nat));
    let mark_len: usize = mark.as_str().as_bytes().len();
    let v = chars_of(content);
    proof {
        lemma_prefix_within(content@, max_bytes as nat);
    }
    if mark_len >= max {
        let k: usize = prefix_count(&v, max);
        return content.substring_char(0, k).to_owned();
    }
    let available: usize = max - mark_len;
    let head_target: usize = available / 2;
    let tail_target: usize = available - head_target;
    let head_end: usize = prefix_count(&v, head_target);
    let cut: usize = prefix_count(&v, total - tail_target);
    let tail_start: usize = if cut < head_end {
        head_end
    } else {
        cut
    };
    let mut result = content.substring_char(0, head_end).to_owned();
    result.append(mark.as_str());
    result.append(content.substring_char(tail_start, v.len()));
    let whole = chars_of(result.as_str());
    let k: usize = prefix_count(&whole, max);
    proof {
        let head = prefix_within(content@, head_target as nat);
        assert(head =~= content@.subrange(0, head_end as int));
        assert(content@.skip(tail_start as int) =~= content@.subrange(
            tail_start as int,
            content@.len() as int,
        ));
        assert(whole@ == head + mark@ + content@.skip(tail_start as int));
        lemma_prefix_within(whole@, max_bytes as nat);
        assert(whole@.subrange(0, k as int) =~= whole@.take(k as int));
    }
    result.as_str().substring_char(0, k).to_owned()
}

/// Whether `p` is the longest beginning of `s` that takes at most `max` bytes in UTF-8.
pub open spec fn is_longest_prefix(p: Seq<char>, s: Seq<char>, max: int) -> bool {
    &&& p.is_prefix_of(s)
    &&& encode_utf8(p).len() <= max
    &&& p.len() < s.len() ==> encode_utf8(s.take(p.len() as int + 1)).len() > max
}

proof fn lemma_longest_prefix(s: Seq<char>, max: nat)
    ensures
        is_longest_prefix(prefix_within(s, max), s, max as int),
    decreases s.len(),
{
    let p = prefix_within(s, max);
    if s.len() == 0 {
        assert(encode_utf8(s).len() == 0);
    } else if byte_len(s) > max {
        let front = s.drop_last();
        lemma_longest_prefix(front, max);
        if p.len() < front.len() {
            assert(front.take(p.len() as int + 1) =~= s.take(p.len() as int + 1));
        } else {
            assert(s.take(p.len() as int + 1) =~= s);
        }
    }
}

/// Output within the limit is kept as it is. Of longer output the longest beginning within half of
/// the limit is kept, and the end for the other half; between them stands how much there was and how
/// much may be kept. Where the limit is too small for those words, only the longest beginning within
/// it is kept. What is kept takes no more bytes than the limit.
pub proof fn law_output_is_cut(content: Seq<char>, max: nat)
    ensures
        ({
            let kept = truncated(content, max);
            let total = encode_utf8(content).len();
            let mark = "\n\n[... output truncated: "@ + decimal(total)
                + " bytes elided (cap = "@ + decimal(max)
                + " bytes). Re-run with a narrower scope if more detail is needed ...]\n\n"@;
            let room = max - encode_utf8(mark).len();
            if max == 0 || total <= max {
                kept == content
            } else if room <= 0 {
                is_longest_prefix(kept, content, max as int)
            } else {
                exists|head: Seq<char>, cut: Seq<char>|
                    {
                        &&& #[trigger] is_longest_prefix(head, content, room / 2)
                        &&& #[trigger] is_longest_prefix(cut, content, total - (room - room / 2))
                        &&& is_longest_prefix(
                            kept,
                            head + mark + content.skip(
                                if cut.len() < head.len() {
                                    head.len() as int
                                } else {
                                    cut.len() as int
                                },
                            ),
                            max as int,
                        )
                    }
            }
        }),
{
    let total = byte_len(content);
    let mark = sentinel(total, max);
    if max > 0 && total > max {
        if byte_len(mark) >= max {
            lemma_longest_prefix(content, max);
        } else {
            let available = (max - byte_len(mark)) as nat;
            let rest = (total - (available - available / 2)) as nat;
            let head = prefix_within(content, available / 2);
            let cut = prefix_within(content, rest);
            lemma_longest_prefix(content, available / 2);
            lemma_longest_prefix(content, rest);
            assert(is_longest_prefix(head, content, (available / 2) as int));
            assert(is_longest_prefix(cut, content, rest as int));
            let tail = content.skip(
                if cut.len() < head.len() {
                    head.len() as int
                } else {
                    cut.len() as int
                },
            );
            lemma_longest_prefix(head + mark + tail, max);
        }
    }
}

proof fn lemma_byte_len_add(a: Seq<char>, b: Seq<char>)
    ensures
        byte_len(a + b) == byte_len(a) + byte_len(b),
    decreases b.len(),
{
    if b.len() == 0 {
        assert(a + b =~= a);
        assert(encode_utf8(b).len() == 0);
    } else {
        let front = b.drop_last();
        lemma_byte_len_add(a, front);
        lemma_byte_len_push(a + front, b.last());
        lemma_byte_len_push(front, b.last());
        assert((a + front).push(b.last()) =~= a + b);
        assert(front.push(b.last()) =~= b);
    }
}

proof fn lemma_ascii_byte_len(s: Seq<char>)
    requires
        forall|i: int| 0 <= i < s.len() ==> #[trigger] s[i] as u32 <= 0x7f,
    ensures
        byte_len(s) == s.len(),
    decreases s.len(),
{
    if s.len() == 0 {
        assert(encode_utf8(s).len() == 0);
    } else {
        let front = s.drop_last();
        let c = s[s.len() - 1];
        assert forall|i: int| 0 <= i < front.len() implies #[trigger] front[i] as u32 <= 0x7f by {
            assert(front[i] == s[i]);
        }
        lemma_ascii_byte_len(front);
        lemma_byte_len_push(front, c);
        char_is_scalar(c);
        assert(c as u32 <= 0x7f);
        assert(front.push(c) =~= s);
    }
}

/// Output in ASCII beyond the limit keeps exactly as many of its first and of its last characters as
/// fit around the words on what was cut: what is kept is as long as the limit.
pub proof fn law_ascii_output_is_cut(content: Seq<char>, max: nat)
    requires
        forall|i: int| 0 <= i < content.len() ==> #[trigger] content[i] as u32 <= 0x7f,
        0 < max < content.len(),
    ensures
        ({
            let kept = truncated(content, max);
            let mark = "\n\n[... output truncated: "@ + decimal(content.len())
                + " bytes elided (cap = "@ + decimal(max)
                + " bytes). Re-run with a narrower scope if more detail is needed ...]\n\n"@;
            let room = max - encode_utf8(mark).len();
            &&& encode_utf8(kept).len() == max
            &&& room > 0 ==> kept == content.take(room / 2) + mark + content.skip(
                content.len() - (room - room / 2),
            )
            &&& room <= 0 ==> kept == content.take(max as int)
        }),
{
    lemma_ascii_byte_len(content);
    let total = content.len();
    let mark = sentinel(total, max);
    let room = max - byte_len(mark);
    if room <= 0 {
        lemma_ascii_prefix(content, max);
    } else {
        let half = (room / 2) as nat;
        let rest = (total - (room - room / 2)) as nat;
        lemma_ascii_prefix(content, half);
        lemma_ascii_prefix(content, rest);
        let head = content.take(half as int);
        let tail = content.skip(rest as int);
        lemma_ascii_part(content, rest as int, total as int);
        assert(content.subrange(rest as int, total as int) =~= tail);
        lemma_byte_len_add(head, mark);
        lemma_byte_len_add(head + mark, tail);
        assert(truncated(content, max) == prefix_within(head + mark + tail, max));
    }
}

proof fn lemma_ascii_part(s: Seq<char>, i: int, j: int)
    requires
        forall|k: int| 0 <= k < s.len() ==> #[trigger] s[k] as u32 <= 0x7f,
        0 <= i <= j <= s.len(),
    ensures
        byte_len(s.subrange(i, j)) == j - i,
{
    let t = s.subrange(i, j);
    assert forall|k: int| 0 <= k < t.len() implies #[trigger] t[k] as u32 <= 0x7f by {
        assert(t[k] == s[i + k]);
    }
    lemma_ascii_byte_len(t);
}

proof fn lemma_ascii_prefix(s: Seq<char>, max: nat)
    requires
        forall|i: int| 0 <= i < s.len() ==> #[trigger] s[i] as u32 <= 0x7f,
        max < s.len(),
    ensures
        prefix_within(s, max) == s.take(max as int),
        byte_len(s.take(max as int)) == max,
{
    lemma_ascii_part(s, 0, max as int);
    lemma_ascii_part(s, 0, max as int + 1);
    assert(s.take(max as int) =~= s.subrange(0, max as int));
    assert(s.take(max as int + 1) =~= s.subrange(0, max as int + 1));
    lemma_prefix_within_at(s, max, max as int);
}

} // verus!
