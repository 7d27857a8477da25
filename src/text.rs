//! Text helpers: trimming, padding, first lines and runs of one character.
use vstd::prelude::*;

verus! {

/// What `str::trim` returns: the text without leading and trailing
/// Unicode white space.
pub uninterp spec fn trim_of(s: Seq<char>) -> Seq<char>;

/// The display width that `unicode_width::UnicodeWidthStr::width` gives a text.
pub uninterp spec fn width_of(s: Seq<char>) -> nat;

/// `n` copies of `c`.
pub open spec fn run_of(c: char, n: nat) -> Seq<char> {
    Seq::new(n, |i: int| c)
}

/// `s` padded on the right with spaces up to display width `w`; a text that
/// is already as wide is kept as it is.
pub open spec fn padded(s: Seq<char>, w: nat) -> Seq<char> {
    if width_of(s) >= w {
        s
    } else {
        s + run_of(' ', (w - width_of(s)) as nat)
    }
}

/// Position of the first line feed in `s`, or its length if there is none.
pub open spec fn line_end(s: Seq<char>) -> int
    decreases s.len(),
{
    if s.len() == 0 {
        0
    } else if s[0] == '\n' {
        0
    } else {
        1 + line_end(s.drop_first())
    }
}

/// The first line of `s`, as `str::lines` yields it: up to the first line
/// feed, without a carriage return just before that line feed.
pub open spec fn first_line_of(s: Seq<char>) -> Seq<char> {
    let e = line_end(s);
    if e < s.len() && e > 0 && s[e - 1] == '\r' {
        s.subrange(0, e - 1)
    } else {
        s.subrange(0, e)
    }
}

/// Relies on `str::trim`: leading and trailing white space removed.
#[verifier::external_body]
pub(crate) fn trim(s: &str) -> (r: &str)
    ensures
        r@ == trim_of(s@),
{
    s.trim()
}

/// Relies on `pad::PadStr::pad_to_width`: left-aligned, spaces added on the
/// right until the display width reaches `width`, never truncated.
#[verifier::external_body]
pub(crate) fn pad_to_width(s: &str, width: usize) -> (r: String)
    ensures
        width_of(s@) >= width ==> r@ == s@,
        width_of(s@) < width ==> r@ == s@ + run_of(' ', (width - width_of(s@)) as nat),
        r@ == padded(s@, width as nat),
{
    pad::PadStr::pad_to_width(s, width)
}

/// The first line of `s`.
pub fn first_line(s: &str) -> (r: String)
    ensures
        r@ == first_line_of(s@),
{
    let n = s.unicode_len();
    let mut e: usize = 0;
    assert(s@.subrange(0, n as int) =~= s@);
    while e < n && s.get_char(e) != '\n'
        invariant
            n == s@.len(),
            e <= n,
            line_end(s@) == e + line_end(s@.subrange(e as int, n as int)),
        decreases n - e,
    {
        proof {
            let t = s@.subrange(e as int, n as int);
            assert(t.drop_first() =~= s@.subrange(e + 1, n as int));
        }
        e = e + 1;
    }
    proof {
        let t = s@.subrange(e as int, n as int);
        assert(line_end(t) == 0);
    }
    let end = if e < n && e > 0 && s.get_char(e - 1) == '\r' {
        e - 1
    } else {
        e
    };
    s.substring_char(0, end).to_string()
}

/// `n` copies of `c`.
pub fn run(c: &str, n: usize) -> (r: String)
    requires
        c@.len() == 1,
    ensures
        r@ == run_of(c@[0], n as nat),
{
    let mut r = String::new();
    let mut i: usize = 0;
    while i < n
        invariant
            i <= n,
            c@.len() == 1,
            r@ == run_of(c@[0], i as nat),
        decreases n - i,
    {
        r.append(c);
        i = i + 1;
        assert(r@ =~= run_of(c@[0], i as nat));
    }
    r
}

} // verus!
