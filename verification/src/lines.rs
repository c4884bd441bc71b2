//! The line reader: splitting a byte stream into normalized lines and
//! classifying a line as blank, header or data.

use vstd::prelude::*;
use crate::types::views_of_lines;

verus! {

/// ASCII whitespace: space, tab, line feed, form feed, carriage return.
pub open spec fn is_space_byte(b: u8) -> bool {
    b == 32 || b == 9 || b == 10 || b == 12 || b == 13
}

/// A blank line: empty or made of whitespace bytes only.
pub open spec fn is_blank_line(line: Seq<u8>) -> bool {
    forall|i: int| 0 <= i < line.len() ==> is_space_byte(line[i])
}

/// The first non-whitespace byte of the line is `#`.
pub open spec fn starts_hash(line: Seq<u8>) -> bool
    decreases line.len(),
{
    if line.len() == 0 {
        false
    } else if is_space_byte(line[0]) {
        starts_hash(line.skip(1))
    } else {
        line[0] == 35
    }
}

/// The number of bytes before the first line feed, or the whole length.
pub open spec fn line_break(s: Seq<u8>) -> nat
    decreases s.len(),
{
    if s.len() == 0 {
        0
    } else if s[0] == 10 {
        0
    } else {
        1 + line_break(s.skip(1))
    }
}

pub proof fn lemma_line_break_le(s: Seq<u8>)
    ensures
        line_break(s) <= s.len(),
    decreases s.len(),
{
    if s.len() != 0 && s[0] != 10 {
        lemma_line_break_le(s.skip(1));
    }
}

/// A line with one trailing carriage return removed, if present.
pub open spec fn trim_cr(l: Seq<u8>) -> Seq<u8> {
    if l.len() > 0 && l.last() == 13 {
        l.drop_last()
    } else {
        l
    }
}

/// The normalized lines of a byte stream: segments between line feeds, each
/// with a trailing carriage return removed; a final segment without a line
/// feed still counts, while a trailing line feed adds no empty line.
pub open spec fn split_lines_spec(s: Seq<u8>) -> Seq<Seq<u8>>
    decreases s.len(),
    via split_lines_spec_decreases
{
    if s.len() == 0 {
        Seq::empty()
    } else {
        let k = line_break(s) as int;
        if k < s.len() {
            seq![trim_cr(s.take(k))] + split_lines_spec(s.skip(k + 1))
        } else {
            seq![trim_cr(s)]
        }
    }
}

#[via_fn]
proof fn split_lines_spec_decreases(s: Seq<u8>) {
    lemma_line_break_le(s);
}

/// Whether the byte is ASCII whitespace.
pub fn is_space(b: u8) -> (r: bool)
    ensures
        r == is_space_byte(b),
{
    b == 32 || b == 9 || b == 10 || b == 12 || b == 13
}

/// Whether the line is blank.
pub fn is_whitespace_line(line: &Vec<u8>) -> (r: bool)
    ensures
        r == is_blank_line(line@),
{
    let mut i: usize = 0;
    while i < line.len()
        invariant
            i <= line@.len(),
            forall|j: int| 0 <= j < i ==> is_space_byte(line@[j]),
        decreases line@.len() - i,
    {
        if !is_space(line[i]) {
            return false;
        }
        i = i + 1;
    }
    true
}

/// Whether the line's first non-whitespace byte is `#`.
pub fn starts_with_hash(line: &Vec<u8>) -> (r: bool)
    ensures
        r == starts_hash(line@),
{
    proof {
        assert(line@.skip(0) =~= line@);
    }
    let mut i: usize = 0;
    while i < line.len()
        invariant
            i <= line@.len(),
            starts_hash(line@) == starts_hash(line@.skip(i as int)),
        decreases line@.len() - i,
    {
        let b = line[i];
        proof {
            assert(line@.skip(i as int)[0] == line@[i as int]);
        }
        if !is_space(b) {
            return b == 35;
        }
        proof {
            assert(line@.skip(i as int).skip(1) =~= line@.skip(i as int + 1));
        }
        i = i + 1;
    }
    proof {
        assert(line@.skip(line@.len() as int) =~= Seq::<u8>::empty());
    }
    false
}

/// Splits a byte stream into its normalized lines.
pub fn split_lines(content: &Vec<u8>) -> (r: Vec<Vec<u8>>)
    ensures
        views_of_lines(r@) == split_lines_spec(content@),
{
    let n = content.len();
    let mut out: Vec<Vec<u8>> = Vec::new();
    let mut pos: usize = 0;
    proof {
        assert(content@.skip(0) =~= content@);
        assert(views_of_lines(out@) + split_lines_spec(content@) =~= split_lines_spec(content@));
    }
    while pos < n
        invariant
            pos <= n,
            n == content@.len(),
            views_of_lines(out@) + split_lines_spec(content@.skip(pos as int)) == split_lines_spec(
                content@,
            ),
        decreases n - pos,
    {
        let ghost suffix = content@.skip(pos as int);
        let mut j: usize = pos;
        while j < n && content[j] != 10
            invariant
                pos <= j <= n,
                n == content@.len(),
                line_break(content@.skip(pos as int)) == (j - pos) + line_break(
                    content@.skip(j as int),
                ),
            decreases n - j,
        {
            proof {
                assert(content@.skip(j as int)[0] == content@[j as int]);
                assert(content@.skip(j as int).skip(1) =~= content@.skip(j as int + 1));
            }
            j = j + 1;
        }
        proof {
            if j < n {
                assert(content@.skip(j as int)[0] == content@[j as int]);
            } else {
                assert(content@.skip(j as int) =~= Seq::<u8>::empty());
            }
            assert(line_break(suffix) == j - pos);
        }
        let end: usize = if j > pos && content[j - 1] == 13 {
            j - 1
        } else {
            j
        };
        let mut line: Vec<u8> = Vec::new();
        let mut k: usize = pos;
        proof {
            assert(line@ =~= content@.subrange(pos as int, pos as int));
        }
        while k < end
            invariant
                pos <= k <= end,
                end <= n,
                n == content@.len(),
                line@ == content@.subrange(pos as int, k as int),
            decreases end - k,
        {
            let b = content[k];
            line.push(b);
            k = k + 1;
            proof {
                assert(content@.subrange(pos as int, k as int) =~= content@.subrange(
                    pos as int,
                    k as int - 1,
                ).push(content@[k as int - 1]));
            }
        }
        proof {
            assert(suffix.take(j - pos) =~= content@.subrange(pos as int, j as int));
            if j > pos && content@[j - 1] == 13 {
                assert(suffix.take(j - pos).drop_last() =~= content@.subrange(
                    pos as int,
                    j as int - 1,
                ));
                assert(line@ == trim_cr(suffix.take(j - pos)));
            } else {
                assert(line@ == trim_cr(suffix.take(j - pos)));
            }
        }
        out.push(line);
        let ghost old_pos = pos as int;
        if j < n {
            pos = j + 1;
        } else {
            pos = n;
        }
        proof {
            assert(views_of_lines(out@) =~= views_of_lines(out@.drop_last()) + seq![
                out@.last()@,
            ]);
            if j < n {
                assert(suffix.skip(line_break(suffix) as int + 1) =~= content@.skip(pos as int));
                assert(split_lines_spec(suffix) == seq![trim_cr(suffix.take(line_break(
                    suffix,
                ) as int))] + split_lines_spec(content@.skip(pos as int)));
            } else {
                assert(suffix.take(line_break(suffix) as int) =~= suffix);
                assert(trim_cr(suffix.take(line_break(suffix) as int)) == trim_cr(suffix));
                assert(split_lines_spec(suffix) == seq![trim_cr(suffix)]);
                assert(content@.skip(pos as int) =~= Seq::<u8>::empty());
            }
            assert(views_of_lines(out@) + split_lines_spec(content@.skip(pos as int))
                =~= split_lines_spec(content@));
        }
    }
    proof {
        assert(content@.skip(pos as int) =~= Seq::<u8>::empty());
        assert(views_of_lines(out@) =~= views_of_lines(out@) + split_lines_spec(
            content@.skip(pos as int),
        ));
    }
    out
}

} // verus!
