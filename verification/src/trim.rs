//! Trailing-whitespace removal over file content given as text.
//!
//! The content is a sequence of characters, treated as lines separated by
//! `'\n'`, with a final `'\n'`, if any, closing the last line rather than
//! opening an empty one. Each line loses its trailing whitespace — every
//! character with Unicode's `White_Space` property, carriage returns and
//! tabs included — leading whitespace stays, and the lines are rejoined
//! with single `'\n'` separators and no trailing newline.

use vstd::prelude::*;

verus! {

/// Whether `c` has Unicode's `White_Space` property: the characters
/// `char::is_whitespace` accepts.
pub open spec fn is_whitespace_char(c: char) -> bool {
    ||| c as u32 == 0x09
    ||| c as u32 == 0x0A
    ||| c as u32 == 0x0B
    ||| c as u32 == 0x0C
    ||| c as u32 == 0x0D
    ||| c as u32 == 0x20
    ||| c as u32 == 0x85
    ||| c as u32 == 0xA0
    ||| c as u32 == 0x1680
    ||| 0x2000 <= c as u32 <= 0x200A
    ||| c as u32 == 0x2028
    ||| c as u32 == 0x2029
    ||| c as u32 == 0x202F
    ||| c as u32 == 0x205F
    ||| c as u32 == 0x3000
}

/// `line` with every trailing whitespace character removed.
pub open spec fn trim_line_end(line: Seq<char>) -> Seq<char>
    decreases line.len(),
{
    if line.len() > 0 && is_whitespace_char(line.last()) {
        trim_line_end(line.drop_last())
    } else {
        line
    }
}

/// `s` split at every `'\n'` into one or more segments. The separators
/// themselves are dropped; `n` line feeds give `n + 1` segments.
pub open spec fn split_lines(s: Seq<char>) -> Seq<Seq<char>>
    decreases s.len(),
{
    if s.len() == 0 {
        seq![s]
    } else if s[0] == '\n' {
        seq![Seq::<char>::empty()] + split_lines(s.drop_first())
    } else {
        let rest = split_lines(s.drop_first());
        seq![seq![s[0]] + rest[0]] + rest.drop_first()
    }
}

/// The segments, each trimmed of trailing whitespace, rejoined with
/// single line feeds.
pub open spec fn join_trimmed(lines: Seq<Seq<char>>) -> Seq<char>
    decreases lines.len(),
{
    if lines.len() == 0 {
        Seq::empty()
    } else if lines.len() == 1 {
        trim_line_end(lines[0])
    } else {
        trim_line_end(lines[0]) + seq!['\n'] + join_trimmed(lines.drop_first())
    }
}

/// `s` without a final line feed, if it has one.
pub open spec fn strip_final_newline(s: Seq<char>) -> Seq<char> {
    if s.len() > 0 && s.last() == '\n' {
        s.drop_last()
    } else {
        s
    }
}

/// What trimming leaves of content `s`: its lines each trimmed of
/// trailing whitespace, rejoined with single line feeds, with no trailing
/// newline.
pub open spec fn trimmed_content(s: Seq<char>) -> Seq<char> {
    join_trimmed(split_lines(strip_final_newline(s)))
}

proof fn lemma_split_lines_len(s: Seq<char>)
    ensures
        split_lines(s).len() >= 1,
    decreases s.len(),
{
    if s.len() > 0 {
        lemma_split_lines_len(s.drop_first());
    }
}

proof fn lemma_split_lines_no_nl(s: Seq<char>)
    requires
        forall|i: int| 0 <= i < s.len() ==> #[trigger] s[i] != '\n',
    ensures
        split_lines(s) =~= seq![s],
    decreases s.len(),
{
    if s.len() > 0 {
        lemma_split_lines_no_nl(s.drop_first());
        assert(seq![s[0]] + s.drop_first() =~= s);
    }
}

proof fn lemma_split_lines_at_first_nl(s: Seq<char>, j: int)
    requires
        0 <= j < s.len(),
        s[j] == '\n',
        forall|i: int| 0 <= i < j ==> #[trigger] s[i] != '\n',
    ensures
        split_lines(s) =~= seq![s.take(j)] + split_lines(s.skip(j + 1)),
    decreases j,
{
    if j == 0 {
        assert(s.take(0) =~= Seq::<char>::empty());
        assert(s.skip(1) =~= s.drop_first());
    } else {
        lemma_split_lines_at_first_nl(s.drop_first(), j - 1);
        lemma_split_lines_len(s.drop_first().skip(j));
        assert(seq![s[0]] + s.drop_first().take(j - 1) =~= s.take(j));
        assert(s.drop_first().skip(j) =~= s.skip(j + 1));
    }
}

fn is_whitespace(c: char) -> (r: bool)
    ensures
        r == is_whitespace_char(c),
{
    let u = c as u32;
    u == 0x09 || u == 0x0A || u == 0x0B || u == 0x0C || u == 0x0D || u == 0x20 || u == 0x85
        || u == 0xA0 || u == 0x1680 || (0x2000 <= u && u <= 0x200A) || u == 0x2028 || u == 0x2029
        || u == 0x202F || u == 0x205F || u == 0x3000
}

fn trim_line_range(s: &Vec<char>, start: usize, end: usize) -> (r: Vec<char>)
    requires
        start <= end <= s@.len(),
    ensures
        r@ == trim_line_end(s@.subrange(start as int, end as int)),
{
    let mut e = end;
    while e > start && is_whitespace(s[e - 1])
        invariant
            start <= e <= end <= s@.len(),
            trim_line_end(s@.subrange(start as int, end as int)) == trim_line_end(
                s@.subrange(start as int, e as int),
            ),
        decreases e,
    {
        proof {
            assert(s@.subrange(start as int, e as int).last() == s@[e - 1]);
            assert(s@.subrange(start as int, e as int).drop_last() =~= s@.subrange(
                start as int,
                e - 1,
            ));
        }
        e = e - 1;
    }
    proof {
        let line = s@.subrange(start as int, e as int);
        if e > start {
            assert(line.last() == s@[e - 1]);
        }
        assert(trim_line_end(line) == line);
    }
    let mut out: Vec<char> = Vec::new();
    let mut i = start;
    while i < e
        invariant
            start <= i <= e <= s@.len(),
            out@ =~= s@.subrange(start as int, i as int),
        decreases e - i,
    {
        out.push(s[i]);
        i = i + 1;
    }
    proof {
        assert(out@ =~= s@.subrange(start as int, e as int));
    }
    out
}

fn render_lines(s: &Vec<char>, start: usize, end: usize) -> (r: Vec<char>)
    requires
        start <= end <= s@.len(),
    ensures
        r@ == join_trimmed(split_lines(s@.subrange(start as int, end as int))),
    decreases end - start,
{
    let ghost seg = s@.subrange(start as int, end as int);
    let mut j = start;
    while j < end && s[j] != '\n'
        invariant
            start <= j <= end <= s@.len(),
            forall|k: int| start <= k < j ==> #[trigger] s@[k] != '\n',
        decreases end - j,
    {
        j = j + 1;
    }
    if j == end {
        proof {
            assert(forall|i: int| 0 <= i < seg.len() ==> #[trigger] seg[i] != '\n');
            lemma_split_lines_no_nl(seg);
        }
        trim_line_range(s, start, end)
    } else {
        proof {
            assert(seg[j - start] == '\n');
            assert(forall|i: int| 0 <= i < j - start ==> #[trigger] seg[i] != '\n');
            lemma_split_lines_at_first_nl(seg, j - start);
            lemma_split_lines_len(seg.skip(j - start + 1));
            assert(seg.take(j - start) =~= s@.subrange(start as int, j as int));
            assert(seg.skip(j - start + 1) =~= s@.subrange(j + 1, end as int));
        }
        let mut head = trim_line_range(s, start, j);
        head.push('\n');
        let mut tail = render_lines(s, j + 1, end);
        head.append(&mut tail);
        proof {
            let parts = split_lines(seg);
            assert(parts =~= seq![seg.take(j - start)] + split_lines(seg.skip(j - start + 1)));
            assert(parts.len() >= 2);
            assert(parts[0] == seg.take(j - start));
            assert(parts.drop_first() =~= split_lines(seg.skip(j - start + 1)));
            assert(head@ =~= join_trimmed(parts));
        }
        head
    }
}

/// Rewrites `content` as trimming leaves it: every line stripped of its
/// trailing whitespace characters, lines rejoined with single line feeds,
/// no trailing newline.
pub fn trim_trailing_whitespace(content: &Vec<char>) -> (r: Vec<char>)
    ensures
        r@ == trimmed_content(content@),
{
    let n = content.len();
    let body_end = if n > 0 && content[n - 1] == '\n' {
        n - 1
    } else {
        n
    };
    proof {
        assert(content@.subrange(0, body_end as int) =~= strip_final_newline(content@));
    }
    render_lines(content, 0, body_end)
}

} // verus!
