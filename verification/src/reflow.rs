//! The text column of a hex-dump line, and the re-wrapping of decoded text
//! into lines of a fixed width.
//!
//! Both work on characters, not on bytes: a window of width `w` holds `w`
//! characters, and a break may fall anywhere, also inside a word.
use crate::text::chars_of;
use vstd::prelude::*;
use vstd::string::StrSliceExecFns;
use vstd::string::StringExecFns;

verus! {

/// The column at which the text of a hex-dump line begins.
pub const START_OF_TEXT: usize = 56;

/// The width to which decoded text is wrapped.
pub const WRAP_WIDTH: usize = 80;

/// The text column of a hex-dump line: what stands from column
/// `START_OF_TEXT` to the end of the line.
pub open spec fn text_column(line: Seq<char>) -> Seq<char> {
    line.subrange(START_OF_TEXT as int, line.len() as int)
}

/// Cuts the text column out of a hex-dump line. The line must reach the
/// column; a shorter line has no text column.
pub fn snoop_to_text(line: &str) -> (r: &str)
    requires
        line@.len() >= START_OF_TEXT,
    ensures
        r@ == text_column(line@),
{
    let n = line.unicode_len();
    line.substring_char(START_OF_TEXT, n)
}

/// The lines of `lines`, each followed by a line break.
pub open spec fn terminated(lines: Seq<Seq<char>>) -> Seq<char>
    decreases lines.len(),
{
    if lines.len() == 0 {
        Seq::empty()
    } else {
        terminated(lines.drop_last()) + lines.last() + "\n"@
    }
}

/// The lines of `lines` one after the other, with nothing between them.
pub open spec fn joined(lines: Seq<Seq<char>>) -> Seq<char>
    decreases lines.len(),
{
    if lines.len() == 0 {
        Seq::empty()
    } else {
        joined(lines.drop_last()) + lines.last()
    }
}

/// How many lines of `width` characters it takes to hold `len` characters:
/// `len / width`, rounded up.
pub open spec fn line_count(len: nat, width: nat) -> nat
    recommends
        width > 0,
{
    ((len + width - 1) / (width as int)) as nat
}

/// Where window `i` of a buffer of `len` characters ends.
pub open spec fn window_end(len: nat, width: nat, i: int) -> int {
    if (i + 1) * width < len {
        (i + 1) * width
    } else {
        len as int
    }
}

/// A buffer cut into windows of `width` characters from left to right; the
/// last window holds what is left.
pub open spec fn reflow_lines(buf: Seq<char>, width: nat) -> Seq<Seq<char>>
    recommends
        width > 0,
{
    Seq::new(
        line_count(buf.len(), width),
        |i: int| buf.subrange(i * width, window_end(buf.len(), width, i)),
    )
}

/// A buffer re-wrapped to `width`: its windows, each followed by a line
/// break. An empty buffer gives an empty text.
pub open spec fn reflowed(buf: Seq<char>, width: nat) -> Seq<char>
    recommends
        width > 0,
{
    terminated(reflow_lines(buf, width))
}

/// Window `k` exists exactly when it starts inside the buffer.
pub proof fn lemma_line_count(len: nat, width: nat, k: nat)
    requires
        width > 0,
    ensures
        k < line_count(len, width) <==> k * width < len,
{
    let c = line_count(len, width);
    let x = (len + width - 1) as int;
    let w = width as int;
    vstd::arithmetic::div_mod::lemma_fundamental_div_mod(x, w);
    vstd::arithmetic::div_mod::lemma_mod_bound(x, w);
    vstd::arithmetic::div_mod::lemma_div_pos_is_pos(x, w);
    assert(x == w * c + x % w);
    if k < c {
        assert(w * (k + 1) <= w * c) by (nonlinear_arith)
            requires
                k + 1 <= c,
                w > 0,
        ;
        assert(w * (k + 1) == k * width + width) by (nonlinear_arith)
            requires
                w == width,
        ;
    } else {
        assert(w * c <= k * width) by (nonlinear_arith)
            requires
                c <= k,
                w == width,
                w > 0,
        ;
    }
}

/// Re-wrapping cuts a buffer of `L` characters into `L / W` lines, rounded
/// up; every line but the last holds `W` characters, the last holds the
/// `L mod W` that are left, or `W` where `W` divides `L`; and the lines put
/// together again are the buffer.
pub proof fn lemma_reflow_lines(buf: Seq<char>, width: nat)
    requires
        width > 0,
    ensures
        reflow_lines(buf, width).len() == line_count(buf.len(), width),
        forall|i: int|
            0 <= i < reflow_lines(buf, width).len() - 1 ==> (#[trigger] reflow_lines(
                buf,
                width,
            )[i]).len() == width,
        reflow_lines(buf, width).len() > 0 ==> reflow_lines(buf, width).last().len() == (if buf.len()
            % width == 0 {
            width
        } else {
            buf.len() % width
        }),
        joined(reflow_lines(buf, width)) == buf,
{
    let lines = reflow_lines(buf, width);
    let len = buf.len();
    let n = lines.len();
    assert forall|i: int| 0 <= i < n - 1 implies (#[trigger] lines[i]).len() == width by {
        lemma_line_count(len, width, (i + 1) as nat);
        lemma_window(width, i);
    }
    if n > 0 {
        let i = n - 1;
        lemma_line_count(len, width, i as nat);
        lemma_line_count(len, width, n);
        lemma_window(width, i);
        let w = width as int;
        assert(i * w < len <= (i + 1) * w);
        assert(len == i * w + (len - i * w));
        if len == (i + 1) * w {
            assert(len % width == 0) by (nonlinear_arith)
                requires
                    len == (i + 1) * w,
                    w == width,
                    w > 0,
            ;
        } else {
            vstd::arithmetic::div_mod::lemma_fundamental_div_mod_converse(
                len as int,
                w,
                i,
                len - i * w,
            );
        }
    }
    lemma_joined_prefix(buf, width, n);
    assert(lines.take(n as int) =~= lines);
    lemma_line_count(len, width, n);
    assert(buf.subrange(0, len as int) =~= buf);
}

proof fn lemma_window(width: nat, i: int)
    requires
        width > 0,
        i >= 0,
    ensures
        (i + 1) * width == i * width + width,
        i * width >= 0,
{
    assert((i + 1) * width == i * width + width) by (nonlinear_arith);
    assert(i * width >= 0) by (nonlinear_arith)
        requires
            i >= 0,
    ;
}

/// Where the first `k` windows end: at `k * width`, or at the end of the
/// buffer where that comes first.
pub open spec fn windows_end(len: nat, width: nat, k: nat) -> int {
    if k * width < len {
        (k * width) as int
    } else {
        len as int
    }
}

proof fn lemma_joined_prefix(buf: Seq<char>, width: nat, k: nat)
    requires
        width > 0,
        k <= reflow_lines(buf, width).len(),
    ensures
        joined(reflow_lines(buf, width).take(k as int)) == buf.subrange(
            0,
            windows_end(buf.len(), width, k),
        ),
    decreases k,
{
    let lines = reflow_lines(buf, width);
    let len = buf.len();
    if k == 0 {
        assert(lines.take(0).len() == 0);
        assert(0 * width == 0) by (nonlinear_arith);
        assert(buf.subrange(0, 0) =~= Seq::<char>::empty());
    } else {
        let j = (k - 1) as nat;
        lemma_joined_prefix(buf, width, j);
        lemma_line_count(len, width, j);
        lemma_window(width, j as int);
        let front = lines.take(k as int);
        assert(front.drop_last() =~= lines.take(j as int));
        assert(front.last() == lines[j as int]);
        assert(windows_end(len, width, j) == j * width);
        assert(windows_end(len, width, k) == window_end(len, width, j as int));
        let cut = (j * width) as int;
        let end = window_end(len, width, j as int);
        assert(buf.subrange(0, cut) + buf.subrange(cut, end) =~= buf.subrange(0, end));
    }
}

/// Re-wraps `data` to lines of `width` characters, each ended by a line
/// break.
pub fn reflow(data: &str, width: usize) -> (r: String)
    requires
        width > 0,
    ensures
        r@ == reflowed(data@, width as nat),
{
    let chars = chars_of(data);
    let len = chars.len();
    let mut out = String::new();
    let mut start: usize = 0;
    let ghost mut k: nat = 0;
    let ghost lines = reflow_lines(data@, width as nat);
    proof {
        assert(0 * width == 0) by (nonlinear_arith);
        assert(lines.take(0) =~= Seq::<Seq<char>>::empty());
    }
    while start < len
        invariant
            width > 0,
            chars@ == data@,
            len == data@.len(),
            lines == reflow_lines(data@, width as nat),
            k <= lines.len(),
            start == windows_end(len as nat, width as nat, k),
            out@ == terminated(lines.take(k as int)),
        decreases len - start,
    {
        let end = if len - start <= width {
            len
        } else {
            start + width
        };
        let ghost head = out@;
        let mut at: usize = start;
        while at < end
            invariant
                start <= at <= end <= len,
                chars@ == data@,
                len == data@.len(),
                out@ == head + data@.subrange(start as int, at as int),
            decreases end - at,
        {
            out.push(chars[at]);
            assert(data@.subrange(start as int, at + 1) =~= data@.subrange(
                start as int,
                at as int,
            ).push(data@[at as int]));
            at += 1;
        }
        out.append("\n");
        proof {
            lemma_line_count(len as nat, width as nat, k);
            lemma_window(width as nat, k as int);
            assert(start == k * width);
            assert(end == window_end(len as nat, width as nat, k as int));
            let front = lines.take(k as int + 1);
            assert(front.drop_last() =~= lines.take(k as int));
            assert(front.last() == data@.subrange(start as int, end as int));
            k = k + 1;
        }
        start = end;
    }
    proof {
        lemma_line_count(len as nat, width as nat, k);
        assert(lines.take(k as int) =~= lines);
    }
    out
}

} // verus!
