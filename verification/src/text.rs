//! Characters and lines: which characters a line may hold, and what a line is
//! without the white space around it.

use vstd::prelude::*;

verus! {

/// A character that a terminal shows: every character but the control
/// characters U+0000 to U+001F and U+007F to U+009F.
pub open spec fn printable(c: char) -> bool {
    !(c as u32 <= 0x1F || (0x7F <= c as u32 && c as u32 <= 0x9F))
}

/// Every character of `s` is printable.
pub open spec fn all_printable(s: Seq<char>) -> bool {
    forall|i: int| 0 <= i < s.len() ==> printable(#[trigger] s[i])
}

/// Tells whether `c` is printable.
pub fn is_printable(c: char) -> (r: bool)
    ensures
        r == printable(c),
{
    let n: u32 = c as u32;
    !(n <= 0x1F || (0x7F <= n && n <= 0x9F))
}

/// White space: the characters that Unicode counts as White_Space.
pub open spec fn blank(c: char) -> bool {
    let n = c as u32;
    (0x09 <= n && n <= 0x0D) || n == 0x20 || n == 0x85 || n == 0xA0 || n == 0x1680 || (0x2000 <= n
        && n <= 0x200A) || n == 0x2028 || n == 0x2029 || n == 0x202F || n == 0x205F || n == 0x3000
}

/// `s` without the white space that it begins with.
pub open spec fn trimmed_start(s: Seq<char>) -> Seq<char>
    decreases s.len(),
{
    if s.len() > 0 && blank(s.first()) {
        trimmed_start(s.drop_first())
    } else {
        s
    }
}

/// `s` without the white space that it ends with.
pub open spec fn trimmed_end(s: Seq<char>) -> Seq<char>
    decreases s.len(),
{
    if s.len() > 0 && blank(s.last()) {
        trimmed_end(s.drop_last())
    } else {
        s
    }
}

/// `s` without the white space around it. White space between other
/// characters stays.
pub open spec fn trimmed(s: Seq<char>) -> Seq<char> {
    trimmed_end(trimmed_start(s))
}

/// Tells whether `c` is white space.
pub fn is_blank(c: char) -> (r: bool)
    ensures
        r == blank(c),
{
    let n: u32 = c as u32;
    (0x09 <= n && n <= 0x0D) || n == 0x20 || n == 0x85 || n == 0xA0 || n == 0x1680 || (0x2000 <= n
        && n <= 0x200A) || n == 0x2028 || n == 0x2029 || n == 0x202F || n == 0x205F || n == 0x3000
}

proof fn lemma_trimmed_start_begins_firmly(s: Seq<char>)
    ensures
        trimmed_start(s).len() > 0 ==> !blank(trimmed_start(s).first()),
    decreases s.len(),
{
    if s.len() > 0 && blank(s.first()) {
        lemma_trimmed_start_begins_firmly(s.drop_first());
    }
}

proof fn lemma_trimmed_end_keeps_beginning(s: Seq<char>)
    ensures
        trimmed_end(s).len() > 0 ==> !blank(trimmed_end(s).last()),
        s.len() > 0 && !blank(s.first()) ==> trimmed_end(s).len() > 0 && trimmed_end(s).first()
            == s.first(),
    decreases s.len(),
{
    if s.len() > 0 && blank(s.last()) {
        lemma_trimmed_end_keeps_beginning(s.drop_last());
    }
}

/// Text that begins and ends with something other than white space is its
/// own trimmed form, and so is the empty text.
pub proof fn firm_text_is_trimmed(s: Seq<char>)
    requires
        s.len() > 0 ==> !blank(s.first()) && !blank(s.last()),
    ensures
        trimmed(s) == s,
{
}

/// Trimming what is trimmed changes nothing.
pub proof fn trimmed_is_idempotent(s: Seq<char>)
    ensures
        trimmed(trimmed(s)) == trimmed(s),
{
    let inner = trimmed_start(s);
    let outer = trimmed_end(inner);
    lemma_trimmed_start_begins_firmly(s);
    lemma_trimmed_end_keeps_beginning(inner);
    assert(trimmed_start(outer) == outer);
    assert(trimmed_end(outer) == outer);
}

/// The part of `line` between the white space around it.
pub fn trim(line: &str) -> (inner: &str)
    ensures
        inner@ == trimmed(line@),
        trimmed(inner@) == inner@,
{
    let n = line.unicode_len();
    let mut start: usize = 0;
    assert(line@.subrange(0, n as int) =~= line@);
    while start < n && is_blank(line.get_char(start))
        invariant
            start <= n,
            n == line@.len(),
            trimmed_start(line@) == trimmed_start(line@.subrange(start as int, n as int)),
        decreases n - start,
    {
        proof {
            let rest = line@.subrange(start as int, n as int);
            assert(rest.first() == line@[start as int]);
            assert(rest.drop_first() =~= line@.subrange(start + 1, n as int));
        }
        start += 1;
    }
    let ghost firm = line@.subrange(start as int, n as int);
    assert(trimmed_start(line@) == firm) by {
        if start < n {
            assert(firm.first() == line@[start as int]);
        }
    }
    let mut end: usize = n;
    while end > start && is_blank(line.get_char(end - 1))
        invariant
            start <= end <= n,
            n == line@.len(),
            trimmed_end(firm) == trimmed_end(line@.subrange(start as int, end as int)),
        decreases end - start,
    {
        proof {
            let rest = line@.subrange(start as int, end as int);
            assert(rest.last() == line@[end - 1]);
            assert(rest.drop_last() =~= line@.subrange(start as int, end - 1));
        }
        end -= 1;
    }
    assert(trimmed_end(firm) == line@.subrange(start as int, end as int)) by {
        if end > start {
            assert(line@.subrange(start as int, end as int).last() == line@[end - 1]);
        }
    }
    proof {
        trimmed_is_idempotent(line@);
    }
    line.substring_char(start, end)
}

} // verus!
