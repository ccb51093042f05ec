//! Shortening of text for display.
use vstd::prelude::*;
use crate::strings::{
    byte_len, byte_prefix, char_width, chars_of, chars_within, fit_prefix, is_byte_boundary,
    lemma_byte_len_concat, lemma_byte_len_push, lemma_char_width_bounds, lemma_chars_within_bound,
    lemma_fits_all,
    string_of,
};

verus! {

/// `s` with every line feed turned into a space.
pub open spec fn spaced(s: Seq<char>) -> Seq<char> {
    s.map_values(|c: char| if c == '\n' { ' ' } else { c })
}

/// The text shown for `s` in at most `max_len` bytes: `s` itself when it
/// fits, else its first `max_len - 3` bytes followed by three dots.
pub open spec fn preview(s: Seq<char>, max_len: int) -> Seq<char> {
    if byte_len(s) <= max_len {
        s
    } else {
        byte_prefix(s, max_len - 3) + seq!['.', '.', '.']
    }
}

/// `preview(s, max_len)` is defined: either `s` fits, or `max_len - 3` is
/// at least zero and falls on a character boundary of `s`.
pub open spec fn preview_defined(s: Seq<char>, max_len: int) -> bool {
    byte_len(s) <= max_len || (max_len >= 3 && is_byte_boundary(s, max_len - 3))
}

/// The text shown for `s` in a column of `max_len` bytes: `s` itself when it
/// fits, else its first `max_len - 1` bytes followed by an ellipsis.
pub open spec fn clipped(s: Seq<char>, max_len: int) -> Seq<char> {
    if byte_len(s) <= max_len {
        s
    } else {
        byte_prefix(s, max_len - 1) + seq!['\u{2026}']
    }
}

/// `clipped(s, max_len)` is defined: either `s` fits, or `max_len - 1` is at
/// least zero and falls on a character boundary of `s`.
pub open spec fn clipped_defined(s: Seq<char>, max_len: int) -> bool {
    byte_len(s) <= max_len || (max_len >= 1 && is_byte_boundary(s, max_len - 1))
}

/// The characters of `cs` with every line feed turned into a space.
fn space_out(cs: &mut Vec<char>)
    ensures
        final(cs)@ == spaced(old(cs)@),
{
    let ghost orig = cs@;
    let n = cs.len();
    let mut i: usize = 0;
    while i < n
        invariant
            n == orig.len(),
            cs@.len() == n,
            i <= n,
            forall|j: int| 0 <= j < i ==> cs@[j] == spaced(orig)[j],
            forall|j: int| i <= j < n ==> cs@[j] == orig[j],
        decreases n - i,
    {
        if cs[i] == '\n' {
            cs.set(i, ' ');
        }
        i = i + 1;
    }
    assert(cs@ =~= spaced(orig));
}

/// The first `keep` bytes of `cs` (a character boundary) followed by `tail`.
fn cut_with(cs: &Vec<char>, keep: usize, tail: &[char]) -> (s: String)
    requires
        is_byte_boundary(cs@, keep as int),
    ensures
        s@ == byte_prefix(cs@, keep as int) + tail@,
{
    let (k, _) = fit_prefix(cs.as_slice(), keep);
    let mut out: Vec<char> = Vec::new();
    let mut i: usize = 0;
    while i < k
        invariant
            k == chars_within(cs@, keep as int),
            k <= cs@.len(),
            i <= k,
            out@ == cs@.take(i as int),
        decreases k - i,
    {
        out.push(cs[i]);
        assert(cs@.take(i + 1) =~= cs@.take(i as int).push(cs@[i as int]));
        i = i + 1;
    }
    let mut j: usize = 0;
    while j < tail.len()
        invariant
            j <= tail@.len(),
            out@ == cs@.take(k as int) + tail@.take(j as int),
        decreases tail@.len() - j,
    {
        out.push(tail[j]);
        assert(tail@.take(j + 1) =~= tail@.take(j as int).push(tail@[j as int]));
        j = j + 1;
    }
    assert(tail@.take(tail@.len() as int) =~= tail@);
    string_of(out.as_slice())
}

/// Shortens `text` for a one-line preview: line feeds become spaces, and
/// text longer than `max_len` bytes is cut to `max_len - 3` bytes followed
/// by `...`.
pub fn truncate_text(text: &str, max_len: usize) -> (shown: String)
    requires
        preview_defined(spaced(text@), max_len as int),
    ensures
        shown@ == preview(spaced(text@), max_len as int),
{
    let mut cs = chars_of(text);
    space_out(&mut cs);
    let (k, _) = fit_prefix(cs.as_slice(), max_len);
    proof {
        lemma_fits_all(cs@, max_len as int);
    }
    if k == cs.len() {
        string_of(cs.as_slice())
    } else {
        let dots = ['.', '.', '.'];
        cut_with(&cs, max_len - 3, dots.as_slice())
    }
}

/// Shortens `s` to fit a table column of `max_len` bytes: text longer than
/// that is cut to `max_len - 1` bytes followed by an ellipsis.
pub fn truncate(s: &str, max_len: usize) -> (shown: String)
    requires
        clipped_defined(s@, max_len as int),
    ensures
        shown@ == clipped(s@, max_len as int),
{
    let cs = chars_of(s);
    let (k, _) = fit_prefix(cs.as_slice(), max_len);
    proof {
        lemma_fits_all(cs@, max_len as int);
    }
    if k == cs.len() {
        string_of(cs.as_slice())
    } else {
        let ellipsis = ['\u{2026}'];
        cut_with(&cs, max_len - 1, ellipsis.as_slice())
    }
}

/// A preview never holds a line feed, and never takes more than `max_len`
/// bytes.
pub proof fn lemma_preview_shape(s: Seq<char>, max_len: int)
    requires
        preview_defined(spaced(s), max_len),
    ensures
        !preview(spaced(s), max_len).contains('\n'),
        byte_len(preview(spaced(s), max_len)) <= max_len,
{
    let t = spaced(s);
    assert(!t.contains('\n')) by {
        if t.contains('\n') {
            let j = choose|j: int| 0 <= j < t.len() && t[j] == '\n';
            assert(t[j] == (if s[j] == '\n' { ' ' } else { s[j] }));
        }
    }
    if byte_len(t) > max_len {
        let p = byte_prefix(t, max_len - 3);
        lemma_chars_within_bound(t, max_len - 3);
        let dots = seq!['.', '.', '.'];
        assert(dots =~= seq!['.'].push('.').push('.'));
        lemma_char_width_bounds('.');
        lemma_byte_len_push(seq!['.'], '.');
        lemma_byte_len_push(seq!['.'].push('.'), '.');
        assert(char_width('.') == 1);
        lemma_byte_len_concat(p, dots);
        assert(!(p + dots).contains('\n')) by {
            if (p + dots).contains('\n') {
                let j = choose|j: int| 0 <= j < (p + dots).len() && (p + dots)[j] == '\n';
                if j < p.len() {
                    assert(p[j] == t[j]);
                }
            }
        }
    }
}

/// Whether `text` can be previewed in `max_len` bytes (see `truncate_text`).
pub fn preview_possible(text: &str, max_len: usize) -> (b: bool)
    ensures
        b == preview_defined(spaced(text@), max_len as int),
{
    let mut cs = chars_of(text);
    space_out(&mut cs);
    let (k, _) = fit_prefix(cs.as_slice(), max_len);
    proof {
        lemma_fits_all(cs@, max_len as int);
    }
    if k == cs.len() {
        true
    } else if max_len < 3 {
        false
    } else {
        let (_, used) = fit_prefix(cs.as_slice(), max_len - 3);
        used == max_len - 3
    }
}

/// Whether `s` can be shortened to `max_len` bytes (see `truncate`).
pub fn clip_possible(s: &str, max_len: usize) -> (b: bool)
    ensures
        b == clipped_defined(s@, max_len as int),
{
    let cs = chars_of(s);
    let (k, _) = fit_prefix(cs.as_slice(), max_len);
    proof {
        lemma_fits_all(cs@, max_len as int);
    }
    if k == cs.len() {
        true
    } else if max_len < 1 {
        false
    } else {
        let (_, used) = fit_prefix(cs.as_slice(), max_len - 1);
        used == max_len - 1
    }
}

} // verus!
