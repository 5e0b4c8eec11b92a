use vstd::prelude::*;
use vstd::string::*;
use vstd::utf8::*;

use crate::text;
use crate::text::{append_decimal, byte_slice};

verus! {

broadcast use group_utf8_lib;

/// The size of the terminal, in character cells.
#[derive(Clone, Copy, Debug)]
pub struct ScreenSize {
    pub columns: usize,
    pub rows: usize,
}

impl ScreenSize {
    pub fn new(columns: usize, rows: usize) -> (s: Self)
        ensures
            s.columns == columns,
            s.rows == rows,
    {
        ScreenSize { columns, rows }
    }

    /// The size that the terminal reports as `(width, height)`.
    pub fn from_reported(width: u16, height: u16) -> (s: Self)
        ensures
            s.columns == width,
            s.rows == height,
    {
        ScreenSize::new(width as usize, height as usize)
    }
}

impl Default for ScreenSize {
    fn default() -> (s: Self)
        ensures
            s.columns == 0,
            s.rows == 0,
    {
        ScreenSize { columns: 0, rows: 0 }
    }
}

/// Which part of the document the screen shows: the document line at the
/// top of the screen, and the byte column at its left edge.
#[derive(Clone, Copy, Debug)]
pub struct EditingViewport {
    pub row_offset: usize,
    pub column_offset: usize,
}

/// The end (exclusive) of the bytes of a line that a screen line of `width`
/// cells shows, from byte column `start` on.
pub open spec fn clip_end(start: usize, width: usize, line_len: int) -> int {
    start + text::min_int(width as int, line_len - start)
}

impl EditingViewport {
    /// The conditions under which `select_and_clip` neither overflows nor
    /// cuts a character apart.
    pub open spec fn clip_permitted(self, line_index: usize, width: usize, lines: Seq<String>) -> bool {
        let eff = self.row_offset + line_index;
        &&& eff <= usize::MAX
        &&& eff < lines.len() ==> {
            let b = text::bytes_of(lines[eff]@);
            self.column_offset < b.len() ==> {
                &&& is_char_boundary(b, self.column_offset as int)
                &&& is_char_boundary(b, clip_end(self.column_offset, width, b.len() as int))
            }
        }
    }

    /// What screen line `line_index` shows of `lines` on a screen `width`
    /// cells wide: at most `width` bytes of document line
    /// `row_offset + line_index` from the column offset on, `«` when the
    /// line ends left of the screen, an empty text for an empty line, and
    /// nothing past the end of the document.
    pub open spec fn clips_to(
        self,
        line_index: usize,
        width: usize,
        lines: Seq<String>,
        r: Option<Seq<char>>,
    ) -> bool {
        let eff = self.row_offset + line_index;
        if eff >= lines.len() {
            r is None
        } else {
            let b = text::bytes_of(lines[eff]@);
            &&& r is Some
            &&& self.column_offset < b.len() ==> text::bytes_of(r.unwrap()) == b.subrange(
                self.column_offset as int,
                clip_end(self.column_offset, width, b.len() as int),
            )
            &&& self.column_offset >= b.len() && b.len() > 0 ==> r.unwrap() == "«"@
            &&& self.column_offset >= b.len() && b.len() == 0 ==> r.unwrap().len() == 0
        }
    }

    /// The text shown on screen line `line_index`, at most `width` bytes of
    /// document line `row_offset + line_index` from the column offset on;
    /// `«` when the line ends left of the screen; nothing past the end of
    /// the document.
    pub fn select_and_clip<'a>(&self, line_index: usize, width: usize, lines: &'a [String]) -> (r:
        Option<&'a str>)
        requires
            self.clip_permitted(line_index, width, lines@),
        ensures
            self.clips_to(line_index, width, lines@, text::opt_view(r)),
    {
        let effective_line_index = self.row_offset + line_index;
        if effective_line_index < lines.len() {
            let line = lines[effective_line_index].as_str();
            let ghost b = line.spec_bytes();
            let line_len = line.as_bytes().len();
            if self.column_offset < line_len {
                let remaining = line_len.saturating_sub(self.column_offset);
                let len = if width < remaining {
                    width
                } else {
                    remaining
                };
                let start = self.column_offset;
                let (_, rest) = line.split_at(start);
                proof {
                    assert(b == text::bytes_of(lines@[effective_line_index as int]@));
                    assert(start + len == clip_end(self.column_offset, width, b.len() as int));
                    assert(is_char_boundary(b, start + len));
                    let i = len as int;
                    let r = rest.spec_bytes();
                    assert(r == b.subrange(start as int, b.len() as int));
                    assert(valid_utf8(r));
                    if i < r.len() {
                        assert(r[i] == b[start + i]);
                        assert(is_char_boundary(r, i) == !is_continuation_byte(r[i]));
                        assert(is_char_boundary(b, start + i) == !is_continuation_byte(
                            b[start + i],
                        ));
                    } else {
                        assert(i == r.len());
                        assert(is_char_boundary(r, r.len() as int));
                    }
                }
                let (slice, _) = rest.split_at(len);
                proof {
                    assert(slice.spec_bytes() =~= b.subrange(
                        start as int,
                        clip_end(self.column_offset, width, b.len() as int),
                    ));
                }
                Some(slice)
            } else if !line.is_empty() {
                Some("«")
            } else {
                proof {
                    reveal_strlit("");
                }
                Some("")
            }
        } else {
            None
        }
    }

    pub fn scroll_up(&mut self, by: usize)
        ensures
            final(self).row_offset == text::sat_sub(old(self).row_offset, by),
            final(self).column_offset == old(self).column_offset,
    {
        self.row_offset = self.row_offset.saturating_sub(by);
    }

    pub fn scroll_down(&mut self, by: usize)
        requires
            old(self).row_offset + by <= usize::MAX,
        ensures
            final(self).row_offset == old(self).row_offset + by,
            final(self).column_offset == old(self).column_offset,
    {
        self.row_offset += by;
    }

    pub fn scroll_left(&mut self, by: usize)
        ensures
            final(self).column_offset == text::sat_sub(old(self).column_offset, by),
            final(self).row_offset == old(self).row_offset,
    {
        self.column_offset = self.column_offset.saturating_sub(by);
    }

    pub fn scroll_right(&mut self, by: usize)
        requires
            old(self).column_offset + by <= usize::MAX,
        ensures
            final(self).column_offset == old(self).column_offset + by,
            final(self).row_offset == old(self).row_offset,
    {
        self.column_offset += by;
    }
}

impl Default for EditingViewport {
    fn default() -> (v: Self)
        ensures
            v.row_offset == 0,
            v.column_offset == 0,
    {
        EditingViewport { row_offset: 0, column_offset: 0 }
    }
}

/// The document: its lines, without line terminators.
pub struct EditingModel {
    pub lines: Vec<String>,
}

impl EditingModel {
    /// A small greeting document.
    pub fn new() -> (m: Self)
        ensures
            m.lines@.len() == 2,
            m.lines@[0]@ == "hi, mom"@,
            m.lines@[1]@ == "Hello, world"@,
    {
        let mut lines: Vec<String> = Vec::new();
        lines.push(String::from_str("hi, mom"));
        lines.push(String::from_str("Hello, world"));
        EditingModel { lines }
    }

    /// A document with a copy of `lines`.
    pub fn with_lines(lines: &[String]) -> (m: Self)
        ensures
            m.lines@ == lines@,
    {
        let mut copy: Vec<String> = Vec::new();
        for i in 0..lines.len()
            invariant
                copy@ == lines@.take(i as int),
        {
            copy.push(lines[i].clone());
            assert(copy@ =~= lines@.take(i + 1));
        }
        assert(lines@.take(lines@.len() as int) =~= lines@);
        EditingModel { lines: copy }
    }

    pub fn line_count(&self) -> (n: usize)
        ensures
            n == self.lines@.len(),
    {
        self.lines.len()
    }

    /// The bytes `range` of line `line_index`, if there is such a line.
    pub fn line_slice(&self, line_index: usize, range: core::ops::Range<usize>) -> (r: Option<&str>)
        requires
            line_index < self.lines@.len() ==> {
                let b = text::bytes_of(self.lines@[line_index as int]@);
                &&& range.start <= range.end <= b.len()
                &&& is_char_boundary(b, range.start as int)
                &&& is_char_boundary(b, range.end as int)
            },
        ensures
            line_index >= self.lines@.len() ==> r is None,
            line_index < self.lines@.len() ==> {
                &&& r is Some
                &&& text::bytes_of(r.unwrap()@) == text::bytes_of(self.lines@[line_index as int]@).subrange(
                    range.start as int,
                    range.end as int,
                )
            },
    {
        if line_index < self.lines.len() {
            let line = self.lines[line_index].as_str();
            let ghost b = line.spec_bytes();
            let (_, rest) = line.split_at(range.start);
            let len = range.end - range.start;
            proof {
                let r = rest.spec_bytes();
                let i = len as int;
                assert(r == b.subrange(range.start as int, b.len() as int));
                if i < r.len() {
                    assert(r[i] == b[range.start + i]);
                    assert(is_char_boundary(r, i) == !is_continuation_byte(r[i]));
                    assert(is_char_boundary(b, range.start + i) == !is_continuation_byte(
                        b[range.start + i],
                    ));
                } else {
                    assert(is_char_boundary(r, r.len() as int));
                }
            }
            let (slice, _) = rest.split_at(len);
            assert(slice.spec_bytes() =~= b.subrange(range.start as int, range.end as int));
            Some(slice)
        } else {
            None
        }
    }
}

impl Default for EditingModel {
    fn default() -> (m: Self)
        ensures
            m.lines@.len() == 2,
            m.lines@[0]@ == "hi, mom"@,
            m.lines@[1]@ == "Hello, world"@,
    {
        EditingModel::new()
    }
}

impl From<(u16, u16)> for ScreenSize {
    fn from(value: (u16, u16)) -> (s: Self) {
        ScreenSize::new(value.0 as usize, value.1 as usize)
    }
}

impl vstd::std_specs::convert::FromSpecImpl<(u16, u16)> for ScreenSize {
    open spec fn obeys_from_spec() -> bool {
        true
    }

    open spec fn from_spec(value: (u16, u16)) -> ScreenSize {
        ScreenSize { columns: value.0 as usize, rows: value.1 as usize }
    }
}

impl EditingModel {
    /// The document whose lines are the lines of `contents` (see
    /// `text_lines`).
    pub fn from_text(contents: &str) -> (m: Self)
        ensures
            m.lines@.len() == text::text_lines(contents.spec_bytes()).len(),
            forall|k: int|
                0 <= k < m.lines@.len() ==> text::bytes_of(#[trigger] m.lines@[k]@) == text::text_lines(
                    contents.spec_bytes(),
                )[k],
    {
        let bytes = contents.as_bytes();
        let ghost b = contents.spec_bytes();
        let n = bytes.len();
        let mut lines: Vec<String> = Vec::new();
        let mut start: usize = 0;
        proof {
            assert(b.take(0) =~= Seq::<u8>::empty());
            assert(is_char_boundary(b, 0));
        }
        for i in 0..n
            invariant
                n == b.len(),
                bytes@ == b,
                b == contents.spec_bytes(),
                valid_utf8(b),
                start <= i,
                is_char_boundary(b, start as int),
                text::segments(b.take(i as int)).len() == lines@.len() + 1,
                text::segments(b.take(i as int)).last() == b.subrange(start as int, i as int),
                forall|k: int|
                    0 <= k < lines@.len() ==> text::bytes_of(#[trigger] lines@[k]@) == text::strip_cr(
                        text::segments(b.take(i as int))[k],
                    ),
        {
            let ghost segs = text::segments(b.take(i as int));
            proof {
                assert(b.take(i + 1).drop_last() =~= b.take(i as int));
                assert(b.take(i + 1).last() == b[i as int]);
            }
            if bytes[i] == 10u8 {
                proof {
                    text::lemma_ascii_boundaries(b, i as int);
                }
                let piece = byte_slice(contents, start, i);
                let pn = piece.len();
                let line = if pn > 0 && piece.as_bytes()[pn - 1] == 13u8 {
                    proof {
                        let pb = piece.spec_bytes();
                        assert(valid_utf8(pb));
                        text::lemma_ascii_boundaries(pb, pn - 1);
                        assert(is_char_boundary(pb, 0));
                    }
                    byte_slice(piece, 0, pn - 1)
                } else {
                    piece
                };
                proof {
                    let seg = b.subrange(start as int, i as int);
                    assert(piece.spec_bytes() == seg);
                    if pn > 0 && seg.last() == 13u8 {
                        assert(line.spec_bytes() =~= seg.drop_last());
                    }
                    assert(line.spec_bytes() == text::strip_cr(seg));
                }
                lines.push(line.to_owned());
                start = i + 1;
                proof {
                    let segs2 = text::segments(b.take(i + 1));
                    assert(segs2 == segs.push(Seq::<u8>::empty()));
                    assert(b.subrange(start as int, i + 1) =~= Seq::<u8>::empty());
                    assert forall|k: int| 0 <= k < lines@.len() implies text::bytes_of(
                        #[trigger] lines@[k]@,
                    ) == text::strip_cr(segs2[k]) by {
                        if k < lines@.len() - 1 {
                            assert(segs2[k] == segs[k]);
                        } else {
                            assert(segs2[k] == segs.last());
                        }
                    }
                }
            } else {
                proof {
                    text::lemma_segments_nonempty(b.take(i as int));
                    let segs2 = text::segments(b.take(i + 1));
                    assert(segs2 == segs.update(segs.len() - 1, segs.last().push(b[i as int])));
                    assert(segs2.last() =~= b.subrange(start as int, i + 1));
                    assert forall|k: int| 0 <= k < lines@.len() implies text::bytes_of(
                        #[trigger] lines@[k]@,
                    ) == text::strip_cr(segs2[k]) by {
                        assert(segs2[k] == segs[k]);
                    }
                }
            }
        }
        proof {
            assert(b.take(n as int) =~= b);
        }
        let ghost segs = text::segments(b);
        let ghost ended = segs.drop_last().map_values(|l: Seq<u8>| text::strip_cr(l));
        proof {
            assert forall|k: int| 0 <= k < lines@.len() implies text::bytes_of(#[trigger] lines@[k]@)
                == ended[k] by {}
        }
        if start < n {
            proof {
                assert(is_char_boundary(b, n as int));
            }
            let tail = byte_slice(contents, start, n);
            let ghost before = lines@;
            lines.push(tail.to_owned());
            proof {
                assert(tail.spec_bytes() == segs.last());
                assert(segs.last().len() > 0);
                assert forall|k: int| 0 <= k < lines@.len() implies text::bytes_of(#[trigger] lines@[k]@)
                    == text::text_lines(b)[k] by {
                    if k < before.len() {
                        assert(lines@[k] == before[k]);
                    }
                }
            }
        } else {
            proof {
                assert(segs.last().len() == 0);
            }
        }
        EditingModel { lines }
    }
}

impl ScreenSize {
    /// The size written as `<columns>x<rows>`, such as `80x24`.
    pub fn to_text(&self) -> (s: String)
        ensures
            s@ == text::decimal(self.columns as nat) + seq!['x'] + text::decimal(self.rows as nat),
    {
        let mut s = String::new();
        append_decimal(&mut s, self.columns);
        proof {
            reveal_strlit("x");
        }
        s.append("x");
        append_decimal(&mut s, self.rows);
        assert(s@ =~= text::decimal(self.columns as nat) + seq!['x'] + text::decimal(self.rows as nat));
        s
    }
}

impl EditingViewport {
    /// Whether `select_and_clip(line_index, width, lines)` may be called.
    pub fn can_clip(&self, line_index: usize, width: usize, lines: &[String]) -> (b: bool)
        ensures
            b == self.clip_permitted(line_index, width, lines@),
    {
        if line_index > usize::MAX - self.row_offset {
            return false;
        }
        let eff = self.row_offset + line_index;
        if eff >= lines.len() {
            return true;
        }
        let line = lines[eff].as_str();
        let n = line.as_bytes().len();
        if self.column_offset >= n {
            return true;
        }
        let remaining = n - self.column_offset;
        let len = if width < remaining {
            width
        } else {
            remaining
        };
        line.is_char_boundary(self.column_offset) && line.is_char_boundary(self.column_offset + len)
    }
}

/// A screen line never shows more than `width` bytes of its document line.
pub proof fn lemma_clip_fits_width(
    v: EditingViewport,
    line_index: usize,
    width: usize,
    lines: Seq<String>,
    r: Option<Seq<char>>,
)
    requires
        v.clips_to(line_index, width, lines, r),
        v.row_offset + line_index < lines.len(),
        v.column_offset < text::bytes_of(lines[v.row_offset + line_index]@).len(),
    ensures
        text::bytes_of(r.unwrap()).len() <= width,
{
}

} // verus!
