//! Splitting text into lines.
//!
//! A line ends at a line feed. A carriage return directly before that line
//! feed belongs to the line ending; any other carriage return is part of the
//! line. Text after the last line feed is a line of its own unless it is
//! empty.

use vstd::prelude::*;
use vstd::std_specs::iter::IteratorSpec;

verus! {

/// `String::push` appends exactly the given character.
pub assume_specification[ std::string::String::push ](s: &mut std::string::String, ch: char)
    ensures
        final(s)@ == old(s)@.push(ch),
;

/// Index of the first line feed in `s`, or `s.len()` if there is none.
pub open spec fn first_newline(s: Seq<char>) -> int
    decreases s.len(),
{
    if s.len() == 0 {
        0
    } else if s[0] == '\n' {
        0
    } else {
        1 + first_newline(s.skip(1))
    }
}

/// `line` without the carriage return at its end, if it has one.
pub open spec fn strip_cr(line: Seq<char>) -> Seq<char> {
    if line.len() > 0 && line.last() == '\r' {
        line.drop_last()
    } else {
        line
    }
}

/// The lines of `s`, in order, each without its line ending.
pub open spec fn lines(s: Seq<char>) -> Seq<Seq<char>>
    decreases s.len(),
{
    if s.len() == 0 {
        Seq::empty()
    } else {
        let n = first_newline(s);
        if 0 <= n < s.len() {
            seq![strip_cr(s.take(n))] + lines(s.skip(n + 1))
        } else {
            seq![s]
        }
    }
}

/// Whether `s` ends with a line feed.
pub open spec fn ends_with_newline(s: Seq<char>) -> bool {
    s.len() > 0 && s.last() == '\n'
}

/// Whether `s` holds a line feed.
pub open spec fn has_newline(s: Seq<char>) -> bool {
    exists|i: int| 0 <= i < s.len() && s[i] == '\n'
}

/// The character sequences of a sequence of strings.
pub open spec fn views(v: Seq<String>) -> Seq<Seq<char>> {
    v.map_values(|l: String| l@)
}

/// `first_newline(s)` is the one position `k` with no line feed before it
/// that either holds a line feed or is the end of `s`.
pub proof fn lemma_first_newline(s: Seq<char>, k: int)
    requires
        0 <= k <= s.len(),
        forall|j: int| 0 <= j < k ==> s[j] != '\n',
        k < s.len() ==> s[k] == '\n',
    ensures
        first_newline(s) == k,
    decreases s.len(),
{
    if s.len() != 0 && s[0] != '\n' {
        let t = s.skip(1);
        assert forall|j: int| 0 <= j < k - 1 implies t[j] != '\n' by {
            assert(t[j] == s[j + 1]);
        }
        lemma_first_newline(t, k - 1);
    }
}

/// Text without a line feed is a single line, and empty text is no line.
pub proof fn lemma_lines_of_single_line(s: Seq<char>)
    requires
        !has_newline(s),
    ensures
        lines(s) == if s.len() == 0 {
            Seq::<Seq<char>>::empty()
        } else {
            seq![s]
        },
{
    lemma_first_newline(s, s.len() as int);
}

/// The first line of `head + "\n" + tail`, where `head` holds no line feed,
/// is `head` without a carriage return at its end; the other lines are those
/// of `tail`.
pub proof fn lemma_lines_of_terminated_line(head: Seq<char>, tail: Seq<char>)
    requires
        !has_newline(head),
    ensures
        lines(head + seq!['\n'] + tail) == seq![strip_cr(head)] + lines(tail),
{
    let s = head + seq!['\n'] + tail;
    let n = head.len() as int;
    lemma_first_newline(s, n);
    assert(s.take(n) =~= head);
    assert(s.skip(n + 1) =~= tail);
}

/// Text split into lines, with the fact whether it ended in a line feed.
pub struct SplitText {
    /// The lines, each without its line ending.
    pub lines: Vec<String>,
    /// Whether the text ended with a line feed.
    pub ends_with_newline: bool,
}

/// A string holding the characters of `chars`.
pub fn string_from_chars(chars: &Vec<char>) -> (out: String)
    ensures
        out@ == chars@,
{
    let mut out = String::new();
    let mut i: usize = 0;
    while i < chars.len()
        invariant
            i <= chars.len(),
            out@ == chars@.take(i as int),
        decreases chars.len() - i,
    {
        out.push(chars[i]);
        i += 1;
        assert(chars@.take(i as int) == chars@.take(i - 1).push(chars@[i - 1]));
    }
    assert(chars@.take(chars.len() as int) == chars@);
    out
}

/// Splits `s` into its lines and reports whether it ends with a line feed.
pub fn split_lines(s: &str) -> (out: SplitText)
    ensures
        views(out.lines@) == lines(s@),
        out.ends_with_newline == ends_with_newline(s@),
{
    let mut done: Vec<String> = Vec::new();
    let mut cur: Vec<char> = Vec::new();
    let mut at_newline = false;
    let mut it = s.chars();
    let ghost mut start: int = 0;
    let ghost mut pos: int = 0;
    proof {
        assert(s@.skip(0) == s@);
        assert(s@.subrange(0, 0) == Seq::<char>::empty());
        assert(views(done@) == Seq::<Seq<char>>::empty());
    }
    loop
        invariant
            0 <= start <= pos <= s@.len(),
            it.remaining() == s@.skip(pos),
            cur@ == s@.subrange(start, pos),
            forall|j: int| start <= j < pos ==> s@[j] != '\n',
            lines(s@) == views(done@) + lines(s@.skip(start)),
            at_newline == ends_with_newline(s@.take(pos)),
        ensures
            pos == s@.len(),
        decreases s@.len() - pos,
    {
        let ghost before = it.remaining();
        match it.next() {
            None => {
                assert(before.len() == 0);
                break ;
            },
            Some(c) => {
                proof {
                    assert(before.len() > 0);
                    assert(c == s@[pos]);
                    assert(s@.skip(pos).drop_first() == s@.skip(pos + 1));
                    assert(s@.take(pos + 1).last() == c);
                }
                if c == '\n' {
                    let n = cur.len();
                    if n > 0 && cur[n - 1] == '\r' {
                        cur.pop();
                    }
                    let line = string_from_chars(&cur);
                    proof {
                        let rest = s@.skip(start);
                        assert forall|j: int| 0 <= j < pos - start implies rest[j] != '\n' by {
                            assert(rest[j] == s@[start + j]);
                        }
                        lemma_first_newline(rest, pos - start);
                        assert(rest.take(pos - start) == s@.subrange(start, pos));
                        assert(rest.skip(pos - start + 1) == s@.skip(pos + 1));
                        assert(line@ == strip_cr(s@.subrange(start, pos)));
                        assert(views(done@.push(line)) == views(done@).push(line@));
                        assert(lines(s@) == views(done@).push(line@) + lines(s@.skip(pos + 1)));
                        start = pos + 1;
                    }
                    done.push(line);
                    cur = Vec::new();
                    at_newline = true;
                } else {
                    cur.push(c);
                    at_newline = false;
                    proof {
                        assert(s@.subrange(start, pos + 1) == s@.subrange(start, pos).push(c));
                    }
                }
                proof {
                    pos = pos + 1;
                    assert(s@.subrange(start, pos) == cur@);
                }
            },
        }
    }
    proof {
        assert(pos == s@.len());
        assert(s@.take(pos) == s@);
        let rest = s@.skip(start);
        assert forall|j: int| 0 <= j < rest.len() implies rest[j] != '\n' by {
            assert(rest[j] == s@[start + j]);
        }
        lemma_first_newline(rest, rest.len() as int);
        assert(rest == cur@);
    }
    if cur.len() > 0 {
        let line = string_from_chars(&cur);
        proof {
            assert(views(done@.push(line)) == views(done@).push(line@));
        }
        done.push(line);
    }
    SplitText { lines: done, ends_with_newline: at_newline }
}

} // verus!
