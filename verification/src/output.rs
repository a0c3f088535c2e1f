//! Output formatting helpers: human-readable durations and sizes,
//! plain-text tables, and the state of streaming progress output.
//! Everything here computes text; printing it is the caller's
//! business.

use vstd::prelude::*;

use crate::text::chars_to_string;
use crate::text::push_all;
use crate::text::push_dec;
use crate::text::push_str_chars;
use crate::text::repeat_char;
use crate::text::spec_dec;
use crate::text::spec_repeat_char;
use crate::text::str_chars;

verus! {

/// A duration in seconds rendered as seconds, minutes and seconds,
/// or hours and minutes.
pub open spec fn spec_format_duration(s: int) -> Seq<char> {
    if s < 60 {
        spec_dec(s) + "s"@
    } else if s < 3600 {
        spec_dec(s / 60) + "m "@ + spec_dec(s % 60) + "s"@
    } else {
        spec_dec(s / 3600) + "h "@ + spec_dec((s % 3600) / 60) + "m"@
    }
}

/// Format a duration in human-readable form.
pub fn format_duration(seconds: u64) -> (r: String)
    ensures
        r@ == spec_format_duration(seconds as int),
{
    let mut out: Vec<char> = Vec::new();
    if seconds < 60 {
        push_dec(&mut out, seconds);
        push_str_chars(&mut out, "s");
    } else if seconds < 3600 {
        push_dec(&mut out, seconds / 60);
        push_str_chars(&mut out, "m ");
        push_dec(&mut out, seconds % 60);
        push_str_chars(&mut out, "s");
    } else {
        push_dec(&mut out, seconds / 3600);
        push_str_chars(&mut out, "h ");
        push_dec(&mut out, (seconds % 3600) / 60);
        push_str_chars(&mut out, "m");
    }
    chars_to_string(&out)
}

/// `n10 / d` rounded to the nearest integer, ties to even: the
/// rounding the one-decimal display applies to an exact quotient.
pub open spec fn spec_round_half_even(n10: int, d: int) -> int {
    let q = n10 / d;
    let r = n10 % d;
    if 2 * r < d {
        q
    } else if 2 * r > d {
        q + 1
    } else if q % 2 == 0 {
        q
    } else {
        q + 1
    }
}

/// A value in tenths rendered with one decimal place.
pub open spec fn spec_dec1(t: int) -> Seq<char> {
    spec_dec(t / 10) + "."@ + spec_dec(t % 10)
}

/// A byte count rendered as bytes, or as kibibyte multiples with one
/// decimal place, rounding ties to even.
pub open spec fn spec_format_size(b: int) -> Seq<char> {
    if b < 1024 {
        spec_dec(b) + " B"@
    } else if b < 1048576 {
        spec_dec1(spec_round_half_even(b * 10, 1024)) + " KB"@
    } else if b < 1073741824 {
        spec_dec1(spec_round_half_even(b * 10, 1048576)) + " MB"@
    } else {
        spec_dec1(spec_round_half_even(b * 10, 1073741824)) + " GB"@
    }
}

/// One decimal place of `n10 / d`, ties rounded to even.
fn round_tenths(n10: u128, d: u128) -> (t: u64)
    requires
        d >= 1,
        d <= 0x40000000,
        n10 <= 0xffffffffffffffff * 10,
        d >= 1024 ==> n10 / d + 1 <= u64::MAX,
        d < 1024 ==> n10 + 1 <= u64::MAX,
    ensures
        t as int == spec_round_half_even(n10 as int, d as int),
{
    let q = n10 / d;
    let r = n10 % d;
    let t = if 2 * r < d {
        q
    } else if 2 * r > d {
        q + 1
    } else if q % 2 == 0 {
        q
    } else {
        q + 1
    };
    proof {
        if d >= 1024 {
            assert(t <= u64::MAX);
        } else {
            assert(q <= n10);
            assert(t <= u64::MAX);
        }
    }
    t as u64
}

/// Append one decimal place of `t` tenths.
fn push_dec1(out: &mut Vec<char>, t: u64)
    ensures
        final(out)@ == old(out)@ + spec_dec1(t as int),
{
    push_dec(out, t / 10);
    push_str_chars(out, ".");
    push_dec(out, t % 10);
}

/// Format a byte count in human-readable form.
pub fn format_size(bytes: u64) -> (r: String)
    ensures
        r@ == spec_format_size(bytes as int),
{
    let mut out: Vec<char> = Vec::new();
    if bytes < 1024 {
        push_dec(&mut out, bytes);
        push_str_chars(&mut out, " B");
    } else if bytes < 1048576 {
        let t = round_tenths((bytes as u128) * 10, 1024);
        push_dec1(&mut out, t);
        push_str_chars(&mut out, " KB");
    } else if bytes < 1073741824 {
        let t = round_tenths((bytes as u128) * 10, 1048576);
        push_dec1(&mut out, t);
        push_str_chars(&mut out, " MB");
    } else {
        let t = round_tenths((bytes as u128) * 10, 1073741824);
        push_dec1(&mut out, t);
        push_str_chars(&mut out, " GB");
    }
    chars_to_string(&out)
}

/// A cell padded with spaces on the right up to `w` characters.
pub open spec fn spec_padded(c: Seq<char>, w: int) -> Seq<char> {
    c + spec_repeat_char(' ', w - c.len())
}

/// The width a row's cell is padded to: the column width when the
/// column exists, otherwise no padding.
pub open spec fn spec_width_at(widths: Seq<usize>, i: int) -> int {
    if 0 <= i < widths.len() {
        widths[i] as int
    } else {
        0
    }
}

/// One table line: the padded cells joined by a column separator.
pub open spec fn spec_cells_line(cells: Seq<Seq<char>>, widths: Seq<usize>) -> Seq<char>
    decreases cells.len(),
{
    if cells.len() == 0 {
        Seq::empty()
    } else if cells.len() == 1 {
        spec_padded(cells[0], spec_width_at(widths, 0))
    } else {
        spec_cells_line(cells.drop_last(), widths) + " | "@ + spec_padded(
            cells.last(),
            spec_width_at(widths, cells.len() - 1),
        )
    }
}

/// The separator line: one dash run per column, joined with `-+-`.
pub open spec fn spec_separator_line(widths: Seq<usize>) -> Seq<char>
    decreases widths.len(),
{
    if widths.len() == 0 {
        Seq::empty()
    } else if widths.len() == 1 {
        spec_repeat_char('-', widths[0] as int)
    } else {
        spec_separator_line(widths.drop_last()) + "-+-"@ + spec_repeat_char(
            '-',
            widths.last() as int,
        )
    }
}

/// All data rows, each closed with a newline.
pub open spec fn spec_rows_lines(rows: Seq<Seq<Seq<char>>>, widths: Seq<usize>) -> Seq<char>
    decreases rows.len(),
{
    if rows.len() == 0 {
        Seq::empty()
    } else {
        spec_rows_lines(rows.drop_last(), widths) + spec_cells_line(rows.last(), widths) + "\n"@
    }
}

/// The whole rendered table: header line, separator, data rows.
pub open spec fn spec_render_table(
    headers: Seq<Seq<char>>,
    rows: Seq<Seq<Seq<char>>>,
    widths: Seq<usize>,
) -> Seq<char> {
    spec_cells_line(headers, widths) + "\n"@ + spec_separator_line(widths) + "\n"@
        + spec_rows_lines(rows, widths)
}

/// The width of column `i` after folding `rows` over a starting
/// width: each row wide enough to reach the column can only widen it.
pub open spec fn spec_width_after(rows: Seq<Seq<Seq<char>>>, i: int, w0: int) -> int
    decreases rows.len(),
{
    if rows.len() == 0 {
        w0
    } else {
        let prev = spec_width_after(rows.drop_last(), i, w0);
        let row = rows.last();
        if 0 <= i < row.len() && row[i].len() > prev {
            row[i].len() as int
        } else {
            prev
        }
    }
}

/// Plain-text table formatting: headers, rows, and the running
/// column widths.
pub struct Table {
    pub headers: Vec<Vec<char>>,
    pub rows: Vec<Vec<Vec<char>>>,
    pub column_widths: Vec<usize>,
}

impl Table {
    /// The widths always track the widest cell of each header column.
    pub open spec fn wf(&self) -> bool {
        &&& self.column_widths@.len() == self.headers@.len()
        &&& forall|i: int|
            0 <= i < self.column_widths@.len() ==> (#[trigger] self.column_widths@[i]) as int
                == spec_width_after(
                self.rows.deep_view(),
                i,
                self.headers.deep_view()[i].len() as int,
            )
    }

    /// Create a new table with the given headers.
    #[verifier::loop_isolation(false)]
    pub fn new(headers: Vec<&str>) -> (r: Table)
        ensures
            r.wf(),
            r.headers.deep_view() == headers.deep_view(),
            r.rows.deep_view() == Seq::<Seq<Seq<char>>>::empty(),
    {
        let ghost hv = headers.deep_view();
        let mut hs: Vec<Vec<char>> = Vec::new();
        let mut ws: Vec<usize> = Vec::new();
        let mut i: usize = 0;
        while i < headers.len()
            invariant
                i <= headers@.len(),
                headers.deep_view() == hv,
                hs.deep_view() =~~= hv.take(i as int),
                ws@.len() == i,
                forall|j: int| 0 <= j < i ==> (#[trigger] ws@[j]) as int == hv[j].len(),
            decreases headers@.len() - i,
        {
            proof {
                assert(hv[i as int] == headers@[i as int]@);
            }
            let h = str_chars(headers[i]);
            ws.push(h.len());
            hs.push(h);
            i = i + 1;
        }
        proof {
            assert(hv.take(hv.len() as int) =~= hv);
        }
        let r = Table { headers: hs, rows: Vec::new(), column_widths: ws };
        proof {
            assert(r.rows.deep_view() =~= Seq::<Seq<Seq<char>>>::empty());
        }
        r
    }

    /// Add a row, widening any column whose new cell is wider.
    #[verifier::loop_isolation(false)]
    pub fn add_row(&mut self, row: Vec<&str>)
        requires
            old(self).wf(),
        ensures
            final(self).wf(),
            final(self).headers.deep_view() == old(self).headers.deep_view(),
            final(self).rows.deep_view() == old(self).rows.deep_view().push(row.deep_view()),
    {
        let ghost rv = row.deep_view();
        let mut cells: Vec<Vec<char>> = Vec::new();
        let mut i: usize = 0;
        while i < row.len()
            invariant
                i <= row@.len(),
                row.deep_view() == rv,
                cells.deep_view() =~~= rv.take(i as int),
            decreases row@.len() - i,
        {
            proof {
                assert(rv[i as int] == row@[i as int]@);
            }
            cells.push(str_chars(row[i]));
            i = i + 1;
        }
        proof {
            assert(rv.take(rv.len() as int) =~= rv);
            assert(cells.deep_view() =~~= rv);
        }
        let mut j: usize = 0;
        let ghost w0 = self.column_widths@;
        while j < cells.len()
            invariant
                j <= cells@.len(),
                cells.deep_view() == rv,
                self.headers == old(self).headers,
                self.rows == old(self).rows,
                self.column_widths@.len() == w0.len(),
                forall|k: int|
                    0 <= k < w0.len() ==> (#[trigger] self.column_widths@[k]) as int == (
                    if k < j && k < rv.len() && rv[k].len() > w0[k] {
                        rv[k].len() as int
                    } else {
                        w0[k] as int
                    }),
            decreases cells@.len() - j,
        {
            if j < self.column_widths.len() {
                let cl = cells[j].len();
                if cl > self.column_widths[j] {
                    self.column_widths.set(j, cl);
                }
            }
            proof {
                assert(rv[j as int] == cells@[j as int]@);
            }
            j = j + 1;
        }
        self.rows.push(cells);
        proof {
            let nrows = self.rows.deep_view();
            assert(nrows =~~= old(self).rows.deep_view().push(rv));
            assert(nrows.drop_last() =~~= old(self).rows.deep_view());
            assert(nrows.last() =~~= rv);
            assert forall|k: int| 0 <= k < self.column_widths@.len() implies (
            #[trigger] self.column_widths@[k]) as int == spec_width_after(
                nrows,
                k,
                self.headers.deep_view()[k].len() as int,
            ) by {
                assert(w0[k] as int == spec_width_after(
                    old(self).rows.deep_view(),
                    k,
                    old(self).headers.deep_view()[k].len() as int,
                ));
            }
        }
    }

    /// Render the table: padded header line, separator, padded rows.
    #[verifier::loop_isolation(false)]
    pub fn render(&self) -> (r: String)
        requires
            self.wf(),
        ensures
            r@ == spec_render_table(
                self.headers.deep_view(),
                self.rows.deep_view(),
                self.column_widths@,
            ),
    {
        let mut out: Vec<char> = Vec::new();
        push_cells_line(&mut out, &self.headers, &self.column_widths);
        push_str_chars(&mut out, "\n");
        push_separator_line(&mut out, &self.column_widths);
        push_str_chars(&mut out, "\n");
        let ghost rv = self.rows.deep_view();
        let ghost head = out@;
        let mut i: usize = 0;
        proof {
            assert(rv.take(0) =~= Seq::<Seq<Seq<char>>>::empty());
            assert(out@ =~= head + spec_rows_lines(rv.take(0), self.column_widths@));
        }
        while i < self.rows.len()
            invariant
                i <= self.rows@.len(),
                out@ == head + spec_rows_lines(rv.take(i as int), self.column_widths@),
            decreases self.rows@.len() - i,
        {
            proof {
                assert(rv[i as int] == self.rows@[i as int].deep_view());
            }
            push_cells_line(&mut out, &self.rows[i], &self.column_widths);
            push_str_chars(&mut out, "\n");
            i = i + 1;
            proof {
                assert(rv.take(i as int).drop_last() =~= rv.take(i - 1));
                assert(rv.take(i as int).last() == rv[i - 1]);
                assert(out@ =~= head + spec_rows_lines(rv.take(i as int), self.column_widths@));
            }
        }
        proof {
            assert(rv.take(rv.len() as int) =~= rv);
            assert(out@ =~= spec_render_table(
                self.headers.deep_view(),
                rv,
                self.column_widths@,
            ));
        }
        chars_to_string(&out)
    }
}

/// Append one padded cell.
fn push_padded(out: &mut Vec<char>, cell: &Vec<char>, w: usize)
    ensures
        final(out)@ == old(out)@ + spec_padded(cell@, w as int),
{
    push_all(out, cell);
    if cell.len() < w {
        let pad = repeat_char(' ', w - cell.len());
        push_all(out, &pad);
    } else {
        proof {
            assert(spec_repeat_char(' ', w - cell@.len()) =~= Seq::<char>::empty());
        }
    }
}

/// Append one row of padded cells joined by the column separator.
#[verifier::loop_isolation(false)]
fn push_cells_line(out: &mut Vec<char>, cells: &Vec<Vec<char>>, widths: &Vec<usize>)
    ensures
        final(out)@ == old(out)@ + spec_cells_line(cells.deep_view(), widths@),
{
    let ghost cv = cells.deep_view();
    let ghost head = out@;
    let mut i: usize = 0;
    proof {
        assert(cv.take(0) =~= Seq::<Seq<char>>::empty());
        assert(out@ =~= head + spec_cells_line(cv.take(0), widths@));
    }
    while i < cells.len()
        invariant
            i <= cells@.len(),
            cells.deep_view() == cv,
            out@ == head + spec_cells_line(cv.take(i as int), widths@),
        decreases cells@.len() - i,
    {
        if i > 0 {
            push_str_chars(out, " | ");
        }
        let w = if i < widths.len() {
            widths[i]
        } else {
            0
        };
        proof {
            assert(cv[i as int] == cells@[i as int]@);
        }
        push_padded(out, &cells[i], w);
        i = i + 1;
        proof {
            assert(cv.take(i as int).drop_last() =~= cv.take(i - 1));
            assert(cv.take(i as int).last() == cv[i - 1]);
            assert(out@ =~= head + spec_cells_line(cv.take(i as int), widths@));
        }
    }
    proof {
        assert(cv.take(cv.len() as int) =~= cv);
    }
}

/// Append the separator line.
#[verifier::loop_isolation(false)]
fn push_separator_line(out: &mut Vec<char>, widths: &Vec<usize>)
    ensures
        final(out)@ == old(out)@ + spec_separator_line(widths@),
{
    let ghost head = out@;
    let mut i: usize = 0;
    proof {
        assert(widths@.take(0) =~= Seq::<usize>::empty());
        assert(out@ =~= head + spec_separator_line(widths@.take(0)));
    }
    while i < widths.len()
        invariant
            i <= widths@.len(),
            out@ == head + spec_separator_line(widths@.take(i as int)),
        decreases widths@.len() - i,
    {
        if i > 0 {
            push_str_chars(out, "-+-");
        }
        let dashes = repeat_char('-', widths[i]);
        push_all(out, &dashes);
        i = i + 1;
        proof {
            assert(widths@.take(i as int).drop_last() =~= widths@.take(i - 1));
            assert(widths@.take(i as int).last() == widths@[i - 1]);
            assert(out@ =~= head + spec_separator_line(widths@.take(i as int)));
        }
    }
    proof {
        assert(widths@.take(widths@.len() as int) =~= widths@);
    }
}

/// The state of streaming output for long-running operations: how
/// many full lines went out, and how wide the current inline line is.
/// Each method returns the exact text for the caller to emit.
pub struct StreamingOutput {
    pub line_count: usize,
    pub last_line_length: usize,
}

/// The progress-bar text for `current` of `total` steps.
pub open spec fn spec_progress_bar(current: int, total: int, label: Seq<char>) -> Seq<char> {
    let t = if total > 1 {
        total
    } else {
        1
    };
    let filled = current * 40 / t;
    "["@ + spec_repeat_char('=', filled) + spec_repeat_char(' ', 40 - filled) + "] "@ + spec_dec(
        current,
    ) + "/"@ + spec_dec(total) + " "@ + label
}

impl StreamingOutput {
    /// Create a new streaming output handler.
    pub fn new() -> (r: StreamingOutput)
        ensures
            r.line_count == 0,
            r.last_line_length == 0,
    {
        StreamingOutput { line_count: 0, last_line_length: 0 }
    }

    /// Record a full output line; the caller prints the returned text
    /// followed by a line break.
    pub fn write_line(&mut self, line: &str) -> (r: String)
        requires
            old(self).line_count < usize::MAX,
        ensures
            r@ == line@,
            final(self).line_count == old(self).line_count + 1,
            final(self).last_line_length == line@.len(),
    {
        let v = str_chars(line);
        self.line_count = self.line_count + 1;
        self.last_line_length = v.len();
        chars_to_string(&v)
    }

    /// Record an inline update; the caller prints the returned text,
    /// which returns to the start of the line before the new text.
    pub fn write_inline(&mut self, text: &str) -> (r: String)
        ensures
            r@ == "\r"@ + text@,
            final(self).line_count == old(self).line_count,
            final(self).last_line_length == text@.len(),
    {
        let v = str_chars(text);
        self.last_line_length = v.len();
        let mut out: Vec<char> = Vec::new();
        push_str_chars(&mut out, "\r");
        push_all(&mut out, &v);
        chars_to_string(&out)
    }

    /// The text that blanks the current inline line, when one is
    /// open.
    pub fn clear_inline(&mut self) -> (r: Option<String>)
        ensures
            old(self).last_line_length > 0 ==> (r matches Some(s) && s@ == "\r"@
                + spec_repeat_char(' ', old(self).last_line_length as int) + "\r"@),
            old(self).last_line_length == 0 ==> r is None,
            final(self).line_count == old(self).line_count,
            final(self).last_line_length == 0,
    {
        if self.last_line_length > 0 {
            let mut out: Vec<char> = Vec::new();
            push_str_chars(&mut out, "\r");
            let blanks = repeat_char(' ', self.last_line_length);
            push_all(&mut out, &blanks);
            push_str_chars(&mut out, "\r");
            self.last_line_length = 0;
            Some(chars_to_string(&out))
        } else {
            None
        }
    }

    /// Record a progress-bar update and return its inline text.
    pub fn write_progress(&mut self, current: usize, total: usize, label: &str) -> (r: String)
        requires
            current <= total,
            total * 40 <= usize::MAX,
        ensures
            r@ == "\r"@ + spec_progress_bar(current as int, total as int, label@),
            final(self).line_count == old(self).line_count,
            final(self).last_line_length == spec_progress_bar(
                current as int,
                total as int,
                label@,
            ).len(),
    {
        let t = if total > 1 {
            total
        } else {
            1
        };
        let filled = (current * 40) / t;
        proof {
            assert(current * 40 / t as int <= 40) by {
                assert(current * 40 <= t * 40) by (nonlinear_arith)
                    requires
                        current <= t,
                ;
                assert(t * 40 / t as int == 40) by (nonlinear_arith)
                    requires
                        t >= 1,
                ;
                vstd::arithmetic::div_mod::lemma_div_is_ordered(
                    current * 40,
                    t * 40,
                    t as int,
                );
            }
        }
        let mut bar: Vec<char> = Vec::new();
        push_str_chars(&mut bar, "[");
        let eq = repeat_char('=', filled);
        push_all(&mut bar, &eq);
        let sp = repeat_char(' ', 40 - filled);
        push_all(&mut bar, &sp);
        push_str_chars(&mut bar, "] ");
        push_dec(&mut bar, current as u64);
        push_str_chars(&mut bar, "/");
        push_dec(&mut bar, total as u64);
        push_str_chars(&mut bar, " ");
        push_str_chars(&mut bar, label);
        let s = chars_to_string(&bar);
        self.write_inline(s.as_str())
    }

    /// Close an open inline line; the caller prints a line break when
    /// the result says so.
    pub fn finish_inline(&mut self) -> (newline: bool)
        ensures
            newline == (old(self).last_line_length > 0),
            final(self).line_count == old(self).line_count,
            final(self).last_line_length == 0,
    {
        let had = self.last_line_length > 0;
        self.last_line_length = 0;
        had
    }

    /// Get the number of lines written.
    pub fn line_count(&self) -> (r: usize)
        ensures
            r == self.line_count,
    {
        self.line_count
    }
}

impl Default for StreamingOutput {
    fn default() -> (r: Self)
        ensures
            r.line_count == 0,
            r.last_line_length == 0,
    {
        Self::new()
    }
}

} // verus!
