//! A plain-text rendering of a byte buffer for inspection: each byte as a
//! right-aligned three-column decimal and a space, `fold` bytes to a line,
//! each line opened by a newline and two spaces.
use vstd::prelude::*;

verus! {

/// The ASCII digit for `d`, which lies in `0..10`.
pub open spec fn digit(d: u8) -> u8 {
    (48 + d) as u8
}

/// The text of one byte: its decimal digits right-aligned in three columns,
/// then a space.
pub open spec fn cell(b: u8) -> Seq<u8> {
    if b >= 100 {
        seq![digit(b / 100), digit((b / 10) % 10), digit(b % 10), 32u8]
    } else if b >= 10 {
        seq![32u8, digit(b / 10), digit(b % 10), 32u8]
    } else {
        seq![32u8, 32u8, digit(b), 32u8]
    }
}

/// The texts of the bytes of `s`, one after another.
pub open spec fn cells(s: Seq<u8>) -> Seq<u8>
    decreases s.len(),
{
    if s.len() == 0 {
        Seq::empty()
    } else {
        cells(s.drop_last()) + cell(s.last())
    }
}

/// What opens each line: a newline and two spaces.
pub open spec fn line_start() -> Seq<u8> {
    seq![10u8, 32u8, 32u8]
}

/// The rendering of `s` with `fold` bytes to a line. A line that is full is
/// followed by another, so a buffer whose size is a multiple of `fold` ends
/// with an empty line.
pub open spec fn render(s: Seq<u8>, fold: nat) -> Seq<u8>
    decreases s.len(),
{
    if 0 < fold <= s.len() {
        line_start() + cells(s.take(fold as int)) + render(s.skip(fold as int), fold)
    } else {
        line_start() + cells(s)
    }
}

fn push_cell(out: &mut Vec<u8>, b: u8)
    ensures
        final(out)@ == old(out)@ + cell(b),
{
    if b >= 100 {
        out.push(48 + b / 100);
        out.push(48 + (b / 10) % 10);
    } else if b >= 10 {
        out.push(32);
        out.push(48 + b / 10);
    } else {
        out.push(32);
        out.push(32);
    }
    out.push(48 + b % 10);
    out.push(32);
    assert(out@ =~= old(out)@ + cell(b));
}

/// Renders `buf` as text, `fold` bytes to a line.
pub fn render_record(buf: &[u8], fold: usize) -> (r: Vec<u8>)
    requires
        fold > 0,
    ensures
        r@ == render(buf@, fold as nat),
{
    let len = buf.len();
    let mut out: Vec<u8> = Vec::new();
    let mut fp: usize = 0;
    assert(buf@.subrange(0, len as int) =~= buf@);
    assert(out@ + render(buf@, fold as nat) =~= render(buf@, fold as nat));
    loop
        invariant
            fp <= len,
            len == buf@.len(),
            fold > 0,
            out@ + render(buf@.subrange(fp as int, len as int), fold as nat) == render(
                buf@,
                fold as nat,
            ),
        decreases len - fp,
    {
        let ghost rest = buf@.subrange(fp as int, len as int);
        let ghost before = out@;
        out.push(10);
        out.push(32);
        out.push(32);
        let full = fold <= len - fp;
        let end = if full {
            fp + fold
        } else {
            len
        };
        let mut k: usize = fp;
        while k < end
            invariant
                fp <= k <= end <= len,
                len == buf@.len(),
                out@ == before + line_start() + cells(buf@.subrange(fp as int, k as int)),
            decreases end - k,
        {
            push_cell(&mut out, buf[k]);
            assert(buf@.subrange(fp as int, k + 1).drop_last() =~= buf@.subrange(
                fp as int,
                k as int,
            ));
            k += 1;
        }
        if full {
            assert(rest.take(fold as int) =~= buf@.subrange(fp as int, end as int));
            assert(rest.skip(fold as int) =~= buf@.subrange(end as int, len as int));
            assert(out@ + render(buf@.subrange(end as int, len as int), fold as nat) =~= before
                + render(rest, fold as nat));
            fp = end;
        } else {
            assert(out@ =~= before + render(rest, fold as nat));
            return out;
        }
    }
}

} // verus!
