//! The line-oriented text format for stored state: the subscriber list
//! (one id per line, lines joined with "\r\n") and the polling watermark
//! (a single number).  A stored copy that does not parse is treated as
//! absent, never as an error.

use vstd::prelude::*;

use crate::chars::str_chars;
use crate::decimal::all_digits;
use crate::decimal::dec_rep_i64;
use crate::decimal::digit_val;
use crate::decimal::i64_to_string;
use crate::decimal::lemma_decimal_round_trip;
use crate::decimal::parse_i64;
use crate::decimal::parse_i64_spec;

verus! {

/// The number of characters before the first newline (the whole length
/// when there is none).
pub open spec fn line_len(s: Seq<char>) -> nat
    decreases s.len(),
{
    if s.len() == 0 {
        0
    } else if s[0] == '\n' {
        0
    } else {
        1 + line_len(s.drop_first())
    }
}

/// A line with one trailing carriage return removed.
pub open spec fn strip_cr(s: Seq<char>) -> Seq<char> {
    if s.len() > 0 && s.last() == '\r' {
        s.drop_last()
    } else {
        s
    }
}

/// The lines of a text: pieces between newlines, each with a trailing
/// carriage return removed; a final piece without newline only when it is
/// not empty.
pub open spec fn split_lines(s: Seq<char>) -> Seq<Seq<char>>
    decreases s.len(),
{
    if s.len() == 0 {
        Seq::empty()
    } else {
        let k = line_len(s);
        if k >= s.len() {
            seq![strip_cr(s)]
        } else {
            seq![strip_cr(s.subrange(0, k as int))] + split_lines(
                s.subrange(k + 1 as int, s.len() as int),
            )
        }
    }
}

/// The first line of a text without newlines is the whole text.
proof fn lemma_line_len_no_newline(s: Seq<char>)
    requires
        forall|i: int| 0 <= i < s.len() ==> s[i] != '\n',
    ensures
        line_len(s) == s.len(),
    decreases s.len(),
{
    if s.len() > 0 {
        assert(forall|i: int|
            0 <= i < s.drop_first().len() ==> #[trigger] s.drop_first()[i] == s[i + 1]);
        lemma_line_len_no_newline(s.drop_first());
    }
}

/// The first line of `head + '\n' + tail` is `head` when `head` holds no
/// newline.
proof fn lemma_line_len_concat(head: Seq<char>, tail: Seq<char>)
    requires
        forall|i: int| 0 <= i < head.len() ==> head[i] != '\n',
    ensures
        line_len(head + seq!['\n'] + tail) == head.len(),
    decreases head.len(),
{
    let s = head + seq!['\n'] + tail;
    if head.len() == 0 {
        assert(s[0] == '\n');
    } else {
        assert(s[0] == head[0]);
        assert(s[0] != '\n');
        assert(s.drop_first() =~= head.drop_first() + seq!['\n'] + tail);
        assert(forall|i: int|
            0 <= i < head.drop_first().len() ==> #[trigger] head.drop_first()[i] == head[i + 1]);
        lemma_line_len_concat(head.drop_first(), tail);
    }
}

/// The lines of a partial text: a finished prefix plus a line in progress.
proof fn lemma_split_lines_step(cur: Seq<char>, rest: Seq<char>)
    requires
        forall|i: int| 0 <= i < cur.len() ==> cur[i] != '\n',
    ensures
        split_lines(cur + seq!['\n'] + rest) == seq![strip_cr(cur)] + split_lines(rest),
{
    let s = cur + seq!['\n'] + rest;
    lemma_line_len_concat(cur, rest);
    let k = line_len(s) as int;
    assert(k == cur.len());
    assert(k < s.len());
    assert(s.subrange(0, k) =~= cur);
    assert(s.subrange(k + 1, s.len() as int) =~= rest);
}

/// A text without newlines is one line (none when it is empty).
proof fn lemma_split_lines_last(cur: Seq<char>)
    requires
        forall|i: int| 0 <= i < cur.len() ==> cur[i] != '\n',
        cur.len() > 0,
    ensures
        split_lines(cur) == seq![strip_cr(cur)],
{
    lemma_line_len_no_newline(cur);
}

/// The characters of each line in a vector of lines.
pub open spec fn line_views(s: Seq<Vec<char>>) -> Seq<Seq<char>> {
    Seq::new(s.len(), |i: int| s[i]@)
}

/// Splits a text into its lines.
pub fn split_lines_exec(v: &Vec<char>) -> (r: Vec<Vec<char>>)
    ensures
        line_views(r@) == split_lines(v@),
{
    let mut lines: Vec<Vec<char>> = Vec::new();
    let mut cur: Vec<char> = Vec::new();
    let mut i: usize = 0;
    proof {
        assert(cur@ + v@.subrange(0, v@.len() as int) =~= v@);
        assert(line_views(lines@) + split_lines(v@) =~= split_lines(v@));
    }
    while i < v.len()
        invariant
            i <= v@.len(),
            forall|j: int| 0 <= j < cur@.len() ==> cur@[j] != '\n',
            split_lines(v@) == line_views(lines@) + split_lines(
                cur@ + v@.subrange(i as int, v@.len() as int),
            ),
        decreases v@.len() - i,
    {
        let ghost rest = v@.subrange(i as int, v@.len() as int);
        let ghost rest2 = v@.subrange(i + 1 as int, v@.len() as int);
        let ghost cur0 = cur@;
        let ghost lines0 = lines@;
        let c = v[i];
        if c == '\n' {
            proof {
                assert(cur0 + rest =~= cur0 + seq!['\n'] + rest2);
                lemma_split_lines_step(cur0, rest2);
            }
            let mut done = cur;
            cur = Vec::new();
            if done.len() > 0 && done[done.len() - 1] == '\r' {
                done.pop();
            }
            proof {
                assert(done@ == strip_cr(cur0));
            }
            lines.push(done);
            proof {
                assert(line_views(lines@) =~= line_views(lines0).push(strip_cr(cur0)));
                assert(cur@ + rest2 =~= rest2);
                assert(line_views(lines0).push(strip_cr(cur0)) + split_lines(rest2)
                    =~= line_views(lines0) + (seq![strip_cr(cur0)] + split_lines(rest2)));
            }
        } else {
            proof {
                assert(cur0 + rest =~= cur0.push(c) + rest2);
            }
            cur.push(c);
        }
        i = i + 1;
    }
    proof {
        assert(v@.subrange(v@.len() as int, v@.len() as int) =~= Seq::<char>::empty());
        assert(cur@ + v@.subrange(v@.len() as int, v@.len() as int) =~= cur@);
    }
    if cur.len() > 0 {
        let ghost cur0 = cur@;
        let ghost lines0 = lines@;
        proof {
            lemma_split_lines_last(cur0);
        }
        let mut done = cur;
        if done.len() > 0 && done[done.len() - 1] == '\r' {
            done.pop();
        }
        proof {
            assert(done@ == strip_cr(cur0));
        }
        lines.push(done);
        proof {
            assert(line_views(lines@) =~= line_views(lines0).push(strip_cr(cur0)));
            assert(line_views(lines0).push(strip_cr(cur0)) =~= line_views(lines0) + seq![
                strip_cr(cur0),
            ]);
        }
    }
    proof {
        assert(line_views(lines@) =~= split_lines(v@));
    }
    lines
}

/// The ids held in a stored subscriber list: one id per line; any line
/// that is not a number makes the whole list count as empty.
pub open spec fn parse_ids_spec(content: Seq<char>) -> Seq<i64> {
    let lines = split_lines(content);
    if forall|i: int| 0 <= i < lines.len() ==> (#[trigger] parse_i64_spec(lines[i])) is Some {
        Seq::new(lines.len(), |i: int| parse_i64_spec(lines[i])->0)
    } else {
        Seq::empty()
    }
}

/// Reads a stored subscriber list.  A list with any malformed line is
/// treated as empty, so a corrupted store never stops the process.
pub fn parse_chat_ids(content: &str) -> (r: Vec<i64>)
    ensures
        r@ == parse_ids_spec(content@),
{
    let chars = str_chars(content);
    let lines = split_lines_exec(&chars);
    let mut r: Vec<i64> = Vec::new();
    let mut i: usize = 0;
    while i < lines.len()
        invariant
            i <= lines@.len(),
            line_views(lines@) == split_lines(content@),
            forall|j: int|
                0 <= j < i ==> (#[trigger] parse_i64_spec(line_views(lines@)[j])) is Some,
            r@.len() == i,
            forall|j: int|
                0 <= j < i ==> r@[j] == parse_i64_spec(line_views(lines@)[j])->0,
        decreases lines@.len() - i,
    {
        match parse_i64(&lines[i]) {
            Some(v) => {
                proof {
                    assert(line_views(lines@)[i as int] == lines@[i as int]@);
                }
                r.push(v);
            },
            None => {
                proof {
                    assert(line_views(lines@)[i as int] == lines@[i as int]@);
                    assert(parse_i64_spec(split_lines(content@)[i as int]) is None);
                }
                return Vec::new();
            },
        }
        i = i + 1;
    }
    proof {
        let lv = split_lines(content@);
        assert(r@ =~= Seq::new(lv.len(), |j: int| parse_i64_spec(lv[j])->0));
    }
    r
}

/// The stored text of a subscriber list: the ids in order, one per line,
/// joined with "\r\n".
pub open spec fn format_ids_spec(ids: Seq<i64>) -> Seq<char>
    decreases ids.len(),
{
    if ids.len() == 0 {
        Seq::empty()
    } else if ids.len() == 1 {
        dec_rep_i64(ids[0] as int)
    } else {
        format_ids_spec(ids.drop_last()) + seq!['\r', '\n'] + dec_rep_i64(ids.last() as int)
    }
}

/// Writes a subscriber list in its stored form.
pub fn format_chat_ids(ids: &Vec<i64>) -> (r: String)
    ensures
        r@ == format_ids_spec(ids@),
{
    let mut out = String::new();
    let mut i: usize = 0;
    while i < ids.len()
        invariant
            i <= ids@.len(),
            out@ == format_ids_spec(ids@.subrange(0, i as int)),
        decreases ids@.len() - i,
    {
        if i > 0 {
            out.append("\r\n");
            proof {
                reveal_strlit("\r\n");
                assert("\r\n"@ =~= seq!['\r', '\n']);
            }
        }
        let piece = i64_to_string(ids[i]);
        out.append(piece.as_str());
        proof {
            let pre = ids@.subrange(0, i as int);
            let post = ids@.subrange(0, i + 1 as int);
            assert(post.drop_last() =~= pre);
            assert(post.last() == ids@[i as int]);
            if i == 0 {
                assert(out@ =~= format_ids_spec(post));
            }
        }
        i = i + 1;
    }
    proof {
        assert(ids@.subrange(0, ids@.len() as int) =~= ids@);
    }
    out
}

/// The decimal text of an id holds no newline, no leading carriage
/// return, and ends in a digit.
proof fn lemma_dec_text_plain(v: i64)
    ensures
        dec_rep_i64(v as int).len() >= 1,
        forall|i: int|
            0 <= i < dec_rep_i64(v as int).len() ==> #[trigger] dec_rep_i64(v as int)[i] != '\n',
        dec_rep_i64(v as int).last() != '\r',
{
    let s = dec_rep_i64(v as int);
    if v < 0 {
        let d = crate::decimal::dec_rep((-(v as int)) as nat);
        crate::decimal::lemma_dec_rep_digits((-(v as int)) as nat);
        assert forall|i: int| 0 <= i < s.len() implies s[i] != '\n' by {
            if i == 0 {
            } else {
                assert(s[i] == d[i - 1]);
                assert(all_digits(d));
                assert(digit_val(d[i - 1]) >= 0);
            }
        }
        assert(s.last() == d.last());
        assert(digit_val(d.last()) >= 0);
    } else {
        crate::decimal::lemma_dec_rep_digits((v as int) as nat);
        assert forall|i: int| 0 <= i < s.len() implies s[i] != '\n' by {
            assert(digit_val(s[i]) >= 0);
        }
        assert(digit_val(s.last()) >= 0);
    }
}

/// A list of two or more ids can also be read as its first id, a line
/// break, and the rest of the list.
proof fn lemma_format_ids_front(ids: Seq<i64>)
    requires
        ids.len() >= 2,
    ensures
        format_ids_spec(ids) == dec_rep_i64(ids[0] as int) + seq!['\r', '\n'] + format_ids_spec(
            ids.drop_first(),
        ),
    decreases ids.len(),
{
    if ids.len() == 2 {
        assert(ids.drop_last() =~= seq![ids[0]]);
        assert(ids.drop_first() =~= seq![ids[1]]);
        assert(format_ids_spec(seq![ids[0]]) == dec_rep_i64(ids[0] as int));
        assert(format_ids_spec(seq![ids[1]]) == dec_rep_i64(ids[1] as int));
    } else {
        let head = ids.drop_last();
        lemma_format_ids_front(head);
        assert(head.drop_first() =~= ids.drop_first().drop_last());
        let tail = ids.drop_first();
        assert(tail.len() >= 2);
        assert(tail.last() == ids.last());
        assert(format_ids_spec(tail) == format_ids_spec(tail.drop_last()) + seq!['\r', '\n']
            + dec_rep_i64(tail.last() as int));
        assert(format_ids_spec(ids) == (dec_rep_i64(ids[0] as int) + seq!['\r', '\n']
            + format_ids_spec(tail.drop_last())) + seq!['\r', '\n'] + dec_rep_i64(
            tail.last() as int,
        ));
        assert((dec_rep_i64(ids[0] as int) + seq!['\r', '\n'] + format_ids_spec(tail.drop_last()))
            + seq!['\r', '\n'] + dec_rep_i64(tail.last() as int) =~= dec_rep_i64(ids[0] as int)
            + seq!['\r', '\n'] + (format_ids_spec(tail.drop_last()) + seq!['\r', '\n']
            + dec_rep_i64(tail.last() as int)));
    }
}

/// The lines of a written subscriber list are exactly the ids' decimal
/// texts, in order.
proof fn lemma_split_format(ids: Seq<i64>)
    ensures
        split_lines(format_ids_spec(ids)) == Seq::new(
            ids.len(),
            |i: int| dec_rep_i64(ids[i] as int),
        ),
    decreases ids.len(),
{
    if ids.len() == 0 {
        assert(split_lines(format_ids_spec(ids)) =~= Seq::new(
            ids.len(),
            |i: int| dec_rep_i64(ids[i] as int),
        ));
    } else if ids.len() == 1 {
        let d = dec_rep_i64(ids[0] as int);
        lemma_dec_text_plain(ids[0]);
        lemma_split_lines_last(d);
        assert(strip_cr(d) == d);
        assert(seq![d] =~= Seq::new(ids.len(), |i: int| dec_rep_i64(ids[i] as int)));
    } else {
        lemma_format_ids_front(ids);
        let d = dec_rep_i64(ids[0] as int);
        let rest = format_ids_spec(ids.drop_first());
        lemma_dec_text_plain(ids[0]);
        let cur = d + seq!['\r'];
        assert(forall|i: int| 0 <= i < cur.len() ==> #[trigger] cur[i] != '\n');
        lemma_split_lines_step(cur, rest);
        assert(d + seq!['\r', '\n'] + rest =~= cur + seq!['\n'] + rest);
        assert(strip_cr(cur) =~= d);
        lemma_split_format(ids.drop_first());
        assert(seq![d] + Seq::new(ids.drop_first().len(), |i: int| dec_rep_i64(
            ids.drop_first()[i] as int,
        )) =~= Seq::new(ids.len(), |i: int| dec_rep_i64(ids[i] as int)));
    }
}

/// Writing a subscriber list and reading it back gives the same ids in
/// the same order.
pub proof fn lemma_ids_round_trip(ids: Seq<i64>)
    ensures
        parse_ids_spec(format_ids_spec(ids)) == ids,
{
    lemma_split_format(ids);
    let lines = split_lines(format_ids_spec(ids));
    assert forall|i: int| 0 <= i < lines.len() implies (#[trigger] parse_i64_spec(
        lines[i],
    )) is Some && parse_i64_spec(lines[i])->0 == ids[i] by {
        lemma_decimal_round_trip(ids[i]);
    }
    assert(parse_ids_spec(format_ids_spec(ids)) =~= ids);
}

/// Writing a watermark and reading it back gives the same number.
pub proof fn lemma_update_id_round_trip(v: i64)
    ensures
        parse_update_id_spec(dec_rep_i64(v as int)) == v,
{
    lemma_decimal_round_trip(v);
}

/// The watermark held in a stored text: the number it denotes, zero when
/// it denotes none.
pub open spec fn parse_update_id_spec(content: Seq<char>) -> i64 {
    match parse_i64_spec(content) {
        Some(v) => v,
        None => 0,
    }
}

/// Reads a stored watermark; malformed text counts as zero, so a fresh or
/// corrupted store starts from the beginning.
pub fn parse_update_id(content: &str) -> (r: i64)
    ensures
        r == parse_update_id_spec(content@),
{
    let chars = str_chars(content);
    match parse_i64(&chars) {
        Some(v) => v,
        None => 0,
    }
}

} // verus!
