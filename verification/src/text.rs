use vstd::prelude::*;
use vstd::string::*;
use vstd::utf8::*;

verus! {

broadcast use group_utf8_lib;

/// `a - b`, or 0 where that would be negative.
pub open spec fn sat_sub(a: usize, b: usize) -> usize {
    if a >= b {
        (a - b) as usize
    } else {
        0
    }
}

/// The smaller of `a` and `b`.
pub open spec fn min_int(a: int, b: int) -> int {
    if a <= b {
        a
    } else {
        b
    }
}

/// The UTF-8 bytes of a string, by its characters.
pub open spec fn bytes_of(s: Seq<char>) -> Seq<u8> {
    encode_utf8(s)
}

/// The characters of an optional text.
pub open spec fn opt_view(r: Option<&str>) -> Option<Seq<char>> {
    match r {
        Some(s) => Some(s@),
        None => None,
    }
}

/// The pieces of `b` between newline bytes (a text without newlines is one
/// piece; a newline at the very end leaves an empty last piece).
pub open spec fn segments(b: Seq<u8>) -> Seq<Seq<u8>>
    decreases b.len(),
{
    if b.len() == 0 {
        seq![Seq::<u8>::empty()]
    } else {
        let s = segments(b.drop_last());
        if b.last() == 10u8 {
            s.push(Seq::<u8>::empty())
        } else {
            s.update(s.len() - 1, s.last().push(b.last()))
        }
    }
}

/// A line without the carriage return that ends it, if one does.
pub open spec fn strip_cr(l: Seq<u8>) -> Seq<u8> {
    if l.len() > 0 && l.last() == 13u8 {
        l.drop_last()
    } else {
        l
    }
}

/// The lines of a text, as bytes: the text is split at each `\n`, and a `\r`
/// right before a `\n` is dropped; a final line ending is optional (the
/// text after the last `\n` is a line only when it is not empty).
pub open spec fn text_lines(b: Seq<u8>) -> Seq<Seq<u8>> {
    let s = segments(b);
    let ended = s.drop_last().map_values(|l: Seq<u8>| strip_cr(l));
    if s.last().len() == 0 {
        ended
    } else {
        ended.push(s.last())
    }
}

pub(crate) proof fn lemma_segments_nonempty(b: Seq<u8>)
    ensures
        segments(b).len() >= 1,
    decreases b.len(),
{
    if b.len() > 0 {
        lemma_segments_nonempty(b.drop_last());
    }
}

/// In valid UTF-8, the byte after an ASCII byte starts a character.
proof fn lemma_after_ascii_is_boundary(b: Seq<u8>, i: int)
    requires
        valid_utf8(b),
        0 <= i,
        i + 1 < b.len(),
        b[i] <= 0x7f,
    ensures
        !is_continuation_byte(b[i + 1]),
    decreases b.len(),
{
    let l = length_of_first_scalar(b);
    let p = pop_first_scalar(b);
    assert(valid_first_scalar(b));
    if i == 0 {
        assert(l == 1);
        assert(p.len() > 0);
        assert(valid_utf8(p));
        assert(valid_first_scalar(p));
        assert(p[0] == b[1]);
    } else if i < l {
        assert(is_continuation_byte(b[i]));
    } else {
        assert(valid_utf8(p));
        assert(p.len() == b.len() - l);
        assert(p[i - l] == b[i]);
        assert(p[i - l + 1] == b[i + 1]);
        lemma_after_ascii_is_boundary(p, i - l);
    }
}

/// In valid UTF-8 a character starts at every ASCII byte and right after it.
pub(crate) proof fn lemma_ascii_boundaries(b: Seq<u8>, i: int)
    requires
        valid_utf8(b),
        0 <= i < b.len(),
        b[i] <= 0x7f,
    ensures
        is_char_boundary(b, i),
        is_char_boundary(b, i + 1),
{
    assert(is_char_boundary(b, i) == !is_continuation_byte(b[i]));
    if i + 1 < b.len() {
        lemma_after_ascii_is_boundary(b, i);
        assert(is_char_boundary(b, i + 1) == !is_continuation_byte(b[i + 1]));
    } else {
        assert(is_char_boundary(b, b.len() as int));
    }
}

/// The part of `text` between the byte positions `start` and `end`.
pub(crate) fn byte_slice(text: &str, start: usize, end: usize) -> (r: &str)
    requires
        start <= end <= text.spec_bytes().len(),
        is_char_boundary(text.spec_bytes(), start as int),
        is_char_boundary(text.spec_bytes(), end as int),
    ensures
        r.spec_bytes() == text.spec_bytes().subrange(start as int, end as int),
{
    let ghost b = text.spec_bytes();
    let (_, rest) = text.split_at(start);
    let len = end - start;
    proof {
        let r = rest.spec_bytes();
        let i = len as int;
        assert(r == b.subrange(start as int, b.len() as int));
        if i < r.len() {
            assert(r[i] == b[start + i]);
            assert(is_char_boundary(r, i) == !is_continuation_byte(r[i]));
            assert(is_char_boundary(b, start + i) == !is_continuation_byte(b[start + i]));
        } else {
            assert(is_char_boundary(r, r.len() as int));
        }
    }
    let (slice, _) = rest.split_at(len);
    assert(slice.spec_bytes() =~= b.subrange(start as int, end as int));
    slice
}

/// The decimal digit for `d < 10`.
pub open spec fn digit(d: nat) -> char {
    (('0' as u32) + d) as char
}

/// The decimal writing of `n`, without leading zeros.
pub open spec fn decimal(n: nat) -> Seq<char>
    decreases n,
{
    if n < 10 {
        seq![digit(n)]
    } else {
        decimal(n / 10).push(digit(n % 10))
    }
}

fn digit_str(d: usize) -> (s: &'static str)
    requires
        d < 10,
    ensures
        s@ == seq![digit(d as nat)],
{
    proof {
        reveal_strlit("0");
        reveal_strlit("1");
        reveal_strlit("2");
        reveal_strlit("3");
        reveal_strlit("4");
        reveal_strlit("5");
        reveal_strlit("6");
        reveal_strlit("7");
        reveal_strlit("8");
        reveal_strlit("9");
    }
    let s = match d {
        0 => "0",
        1 => "1",
        2 => "2",
        3 => "3",
        4 => "4",
        5 => "5",
        6 => "6",
        7 => "7",
        8 => "8",
        _ => "9",
    };
    assert(s@ =~= seq![digit(d as nat)]);
    s
}

/// Appends the decimal writing of `n` to `s`.
pub(crate) fn append_decimal(s: &mut String, n: usize)
    ensures
        final(s)@ == old(s)@ + decimal(n as nat),
    decreases n,
{
    if n >= 10 {
        append_decimal(s, n / 10);
    }
    s.append(digit_str(n % 10));
    assert(final(s)@ =~= old(s)@ + decimal(n as nat));
}

/// The final line ending of a text is optional: ending a text with `\n` or
/// `\r\n` does not change its lines, when its last line is not empty and
/// does not itself end with `\r`.
pub proof fn lemma_final_line_ending_optional(b: Seq<u8>)
    requires
        segments(b).last().len() > 0,
        segments(b).last().last() != 13u8,
    ensures
        text_lines(b.push(10u8)) == text_lines(b),
        text_lines(b.push(13u8).push(10u8)) == text_lines(b),
{
    lemma_segments_nonempty(b);
    let s = segments(b);
    assert(b.len() > 0);
    assert(b.last() != 10u8);
    let b1 = b.push(10u8);
    assert(b1.drop_last() =~= b);
    assert(segments(b1) == s.push(Seq::<u8>::empty()));
    assert(segments(b1).drop_last() =~= s);
    assert(s.map_values(|l: Seq<u8>| strip_cr(l)) =~= s.drop_last().map_values(
        |l: Seq<u8>| strip_cr(l),
    ).push(s.last()));
    let b2 = b.push(13u8);
    let b3 = b2.push(10u8);
    assert(b2.drop_last() =~= b);
    assert(b3.drop_last() =~= b2);
    let s2 = segments(b2);
    assert(s2 == s.update(s.len() - 1, s.last().push(13u8)));
    assert(segments(b3) == s2.push(Seq::<u8>::empty()));
    assert(segments(b3).drop_last() =~= s2);
    assert(strip_cr(s.last().push(13u8)) =~= s.last());
    assert(s2.map_values(|l: Seq<u8>| strip_cr(l)) =~= s.drop_last().map_values(
        |l: Seq<u8>| strip_cr(l),
    ).push(s.last()));
}

/// The text made of `lines`, each one followed by `ending`.
pub open spec fn terminated(lines: Seq<Seq<u8>>, ending: Seq<u8>) -> Seq<u8>
    decreases lines.len(),
{
    if lines.len() == 0 {
        Seq::empty()
    } else {
        terminated(lines.drop_last(), ending) + lines.last() + ending
    }
}

/// `l` holds no newline byte.
pub open spec fn has_no_newline(l: Seq<u8>) -> bool {
    forall|i: int| 0 <= i < l.len() ==> l[i] != 10u8
}

/// Appending bytes without a newline extends the last piece.
proof fn lemma_segments_extend(t: Seq<u8>, l: Seq<u8>)
    requires
        has_no_newline(l),
    ensures
        segments(t + l) == segments(t).update(
            segments(t).len() - 1,
            segments(t).last() + l,
        ),
    decreases l.len(),
{
    lemma_segments_nonempty(t);
    let s = segments(t);
    if l.len() == 0 {
        assert(t + l =~= t);
        assert(s.update(s.len() - 1, s.last() + l) =~= s);
    } else {
        let l0 = l.drop_last();
        assert(has_no_newline(l0));
        lemma_segments_extend(t, l0);
        lemma_segments_nonempty(t + l0);
        assert((t + l).drop_last() =~= t + l0);
        assert((t + l).last() == l.last());
        assert(l.last() != 10u8);
        let s0 = segments(t + l0);
        assert(segments(t + l) == s0.update(s0.len() - 1, s0.last().push(l.last())));
        assert((s.last() + l0).push(l.last()) =~= s.last() + l);
        assert(segments(t + l) =~= s.update(s.len() - 1, s.last() + l));
    }
}

proof fn lemma_segments_crlf(lines: Seq<Seq<u8>>)
    requires
        forall|k: int| 0 <= k < lines.len() ==> has_no_newline(#[trigger] lines[k]),
    ensures
        segments(terminated(lines, seq![13u8, 10u8])) == lines.map_values(
            |l: Seq<u8>| l.push(13u8),
        ).push(Seq::<u8>::empty()),
    decreases lines.len(),
{
    let e = seq![13u8, 10u8];
    if lines.len() == 0 {
        assert(lines.map_values(|l: Seq<u8>| l.push(13u8)).push(Seq::<u8>::empty()) =~= seq![
            Seq::<u8>::empty(),
        ]);
    } else {
        let init = lines.drop_last();
        let l = lines.last();
        assert(has_no_newline(lines[lines.len() - 1]));
        lemma_segments_crlf(init);
        let t = terminated(init, e);
        let m = init.map_values(|x: Seq<u8>| x.push(13u8));
        assert(has_no_newline(l.push(13u8)));
        lemma_segments_extend(t, l.push(13u8));
        let body = t + l.push(13u8);
        assert(terminated(lines, e) =~= body.push(10u8));
        assert(body.push(10u8).drop_last() =~= body);
        assert(segments(body) =~= m.push(l.push(13u8)));
        assert(lines.map_values(|x: Seq<u8>| x.push(13u8)) =~= m.push(l.push(13u8)));
    }
}

proof fn lemma_segments_lf(lines: Seq<Seq<u8>>)
    requires
        forall|k: int| 0 <= k < lines.len() ==> has_no_newline(#[trigger] lines[k]),
    ensures
        segments(terminated(lines, seq![10u8])) == lines.push(Seq::<u8>::empty()),
    decreases lines.len(),
{
    let e = seq![10u8];
    if lines.len() == 0 {
        assert(lines.push(Seq::<u8>::empty()) =~= seq![Seq::<u8>::empty()]);
    } else {
        let init = lines.drop_last();
        let l = lines.last();
        assert(has_no_newline(lines[lines.len() - 1]));
        lemma_segments_lf(init);
        let t = terminated(init, e);
        lemma_segments_extend(t, l);
        let body = t + l;
        assert(terminated(lines, e) =~= body.push(10u8));
        assert(body.push(10u8).drop_last() =~= body);
        assert(segments(body) =~= init.push(l));
        assert(lines =~= init.push(l));
    }
}

/// Splitting undoes joining with CRLF: the lines of a text in which every
/// line (of any content without a newline, blank lines and lines that
/// themselves end in `\r` included) is followed by `\r\n` are exactly those
/// lines.
pub proof fn lemma_lines_of_crlf_text(lines: Seq<Seq<u8>>)
    requires
        forall|k: int| 0 <= k < lines.len() ==> has_no_newline(#[trigger] lines[k]),
    ensures
        text_lines(terminated(lines, seq![13u8, 10u8])) == lines,
{
    lemma_segments_crlf(lines);
    let s = segments(terminated(lines, seq![13u8, 10u8]));
    let m = lines.map_values(|l: Seq<u8>| l.push(13u8));
    assert(s.drop_last() =~= m);
    assert forall|k: int| 0 <= k < lines.len() implies strip_cr(m[k]) == lines[k] by {
        assert(m[k].drop_last() =~= lines[k]);
    }
    assert(m.map_values(|l: Seq<u8>| strip_cr(l)) =~= lines);
}

/// Splitting undoes joining with LF: the lines of a text in which every
/// line (without a newline, and not ending in `\r`) is followed by `\n` are
/// exactly those lines.
pub proof fn lemma_lines_of_lf_text(lines: Seq<Seq<u8>>)
    requires
        forall|k: int| 0 <= k < lines.len() ==> has_no_newline(#[trigger] lines[k]),
        forall|k: int|
            0 <= k < lines.len() && lines[k].len() > 0 ==> #[trigger] lines[k].last() != 13u8,
    ensures
        text_lines(terminated(lines, seq![10u8])) == lines,
{
    lemma_segments_lf(lines);
    let s = segments(terminated(lines, seq![10u8]));
    assert(s.drop_last() =~= lines);
    assert forall|k: int| 0 <= k < lines.len() implies strip_cr(lines[k]) == lines[k] by {}
    assert(lines.map_values(|l: Seq<u8>| strip_cr(l)) =~= lines);
}

} // verus!
