//! Display-width measurement and aligned padding of a single content line.

use vstd::prelude::*;
use vstd::string::StringExecFns;
use unicode_width::UnicodeWidthStr;
use crate::format::Alignment;

verus! {

/// The widths of a width vector, as mathematical naturals.
pub open spec fn nat_widths(v: Seq<usize>) -> Seq<nat> {
    v.map_values(|w: usize| w as nat)
}

/// Display width that the Unicode tables assign to characters outside the
/// single-width printable ASCII range.
pub uninterp spec fn char_columns(c: char) -> nat;

/// Display width of one character: printable ASCII (U+0020 to U+007E) is one
/// column wide; every other character has the width the Unicode tables assign.
pub open spec fn char_width(c: char) -> nat {
    if 32 <= c as u32 && (c as u32) < 127 {
        1
    } else {
        char_columns(c)
    }
}

/// Display width of a string: the sum of its characters' display widths.
pub open spec fn display_width(s: Seq<char>) -> nat
    decreases s.len(),
{
    if s.len() == 0 {
        0
    } else {
        char_width(s[0]) + display_width(s.drop_first())
    }
}

/// `n` copies of the character `c`.
pub open spec fn repeated(c: char, n: nat) -> Seq<char> {
    Seq::new(n, |i: int| c)
}

/// `n` spaces.
pub open spec fn spaces(n: nat) -> Seq<char> {
    repeated(' ', n)
}

/// The larger of two naturals.
pub open spec fn nat_max(a: nat, b: nat) -> nat {
    if a >= b {
        a
    } else {
        b
    }
}

/// Display width of a list of lines: the widest line's width, zero when
/// there is no line.
pub open spec fn lines_width(lines: Seq<Seq<char>>) -> nat
    decreases lines.len(),
{
    if lines.len() == 0 {
        0
    } else {
        nat_max(lines_width(lines.drop_last()), display_width(lines.last()))
    }
}

/// Display width distributes over concatenation.
pub proof fn lemma_display_width_concat(a: Seq<char>, b: Seq<char>)
    ensures
        display_width(a + b) == display_width(a) + display_width(b),
    decreases a.len(),
{
    if a.len() == 0 {
        assert(a + b =~= b);
    } else {
        assert((a + b).drop_first() =~= a.drop_first() + b);
        lemma_display_width_concat(a.drop_first(), b);
    }
}

/// A run of one repeated character is as wide as the character times the count.
pub proof fn lemma_display_width_repeated(c: char, n: nat)
    ensures
        display_width(repeated(c, n)) == n * char_width(c),
    decreases n,
{
    if n == 0 {
    } else {
        assert(repeated(c, n).drop_first() =~= repeated(c, (n - 1) as nat));
        lemma_display_width_repeated(c, (n - 1) as nat);
        assert((n - 1) * char_width(c) + char_width(c) == n * char_width(c))
            by (nonlinear_arith);
    }
}

/// A run of spaces is as wide as it is long.
pub proof fn lemma_spaces_width(n: nat)
    ensures
        display_width(spaces(n)) == n,
{
    lemma_display_width_repeated(' ', n);
}

/// Relies on `unicode_width::UnicodeWidthStr::width`: the displayed width of a
/// string in terminal columns, computed as the sum over its characters of the
/// width the Unicode tables give each one, where printable ASCII characters
/// are one column wide.
#[verifier::external_body]
pub(crate) fn str_display_width(s: &str) -> (r: usize)
    ensures
        r == display_width(s@),
        s@.len() == 1 && !(32 <= s@[0] as u32 && (s@[0] as u32) < 127) ==> r == char_columns(
            s@[0],
        ),
{
    UnicodeWidthStr::width(s)
}

/// One content line padded with the fill character to the requested size:
/// the deficit goes entirely to the right for `LEFT`, entirely to the left
/// for `RIGHT`, and is split with the smaller half on the left for `CENTER`;
/// `skip_right_fill` drops the trailing fill.
pub open spec fn aligned(
    align: Alignment,
    text: Seq<char>,
    fill: char,
    size: nat,
    skip_right_fill: bool,
) -> Seq<char> {
    let w = display_width(text);
    let nfill: nat = if w < size {
        (size - w) as nat
    } else {
        0
    };
    let left: nat = match align {
        Alignment::LEFT => 0,
        Alignment::RIGHT => nfill,
        Alignment::CENTER => nfill / 2,
    };
    let right: nat = if skip_right_fill {
        0
    } else {
        (nfill - left) as nat
    };
    repeated(fill, left) + text + repeated(fill, right)
}

/// With no skipped fill, an aligned line is exactly as wide as the requested
/// size whenever the content fits, for every alignment, with the fill
/// counting one column per copy.
pub proof fn lemma_aligned_width(align: Alignment, text: Seq<char>, size: nat)
    requires
        display_width(text) <= size,
    ensures
        display_width(aligned(align, text, ' ', size, false)) == size,
{
    let w = display_width(text);
    let nfill: nat = (size - w) as nat;
    let left: nat = match align {
        Alignment::LEFT => 0,
        Alignment::RIGHT => nfill,
        Alignment::CENTER => nfill / 2,
    };
    let right: nat = (nfill - left) as nat;
    lemma_spaces_width(left);
    lemma_spaces_width(right);
    lemma_display_width_concat(repeated(' ', left), text);
    lemma_display_width_concat(repeated(' ', left) + text, repeated(' ', right));
    assert(aligned(align, text, ' ', size, false) =~= (repeated(' ', left) + text) + repeated(
        ' ',
        right,
    ));
}

/// Centering splits the deficit with the smaller half on the left: the left
/// padding never exceeds the right padding, and they differ by at most one.
pub proof fn lemma_center_split(text: Seq<char>, size: nat)
    requires
        display_width(text) <= size,
    ensures
        ({
            let deficit = (size - display_width(text)) as nat;
            let left = deficit / 2;
            let right = (deficit - left) as nat;
            &&& aligned(Alignment::CENTER, text, ' ', size, false) == spaces(left) + text
                + spaces(right)
            &&& left <= right
            &&& right <= left + 1
        }),
{
}

/// Appends `n` copies of `c` to `out`.
pub fn push_repeated(out: &mut String, c: char, n: usize)
    ensures
        final(out)@ == old(out)@ + repeated(c, n as nat),
{
    let mut k: usize = 0;
    while k < n
        invariant
            k <= n,
            out@ == old(out)@ + repeated(c, k as nat),
        decreases n - k,
    {
        out.push(c);
        k = k + 1;
        proof {
            assert(out@ =~= old(out)@ + repeated(c, k as nat));
        }
    }
    proof {
        assert(out@ =~= old(out)@ + repeated(c, n as nat));
    }
}

/// Appends one line of content to `out`, padded with `fill` to the given
/// size according to the alignment.
pub fn print_align(
    out: &mut String,
    align: Alignment,
    text: &str,
    fill: char,
    size: usize,
    skip_right_fill: bool,
)
    ensures
        final(out)@ == old(out)@ + aligned(align, text@, fill, size as nat, skip_right_fill),
{
    let text_len = str_display_width(text);
    let nfill: usize = if text_len < size {
        size - text_len
    } else {
        0
    };
    let n: usize = match align {
        Alignment::LEFT => 0,
        Alignment::RIGHT => nfill,
        Alignment::CENTER => nfill / 2,
    };
    push_repeated(out, fill, n);
    out.append(text);
    let right: usize = if skip_right_fill {
        0
    } else {
        nfill - n
    };
    push_repeated(out, fill, right);
    proof {
        assert(out@ =~= old(out)@ + aligned(align, text@, fill, size as nat, skip_right_fill));
    }
}

/// Relies on `String::push`: appends one character at the end.
pub assume_specification[ String::push ](s: &mut String, c: char)
    ensures
        final(s)@ == old(s)@.push(c),
;

} // verus!
