//! Character-level helpers over the `Seq<char>` view of strings: UTF-8 byte
//! lengths, whitespace trimming and prefix tests.
use vstd::prelude::*;
use vstd::string::*;
use vstd::utf8::*;

verus! {

broadcast use vstd::string::group_string_axioms;

/// Appending a character to a `String` (std's `String::push`) appends it to
/// the character sequence.
pub assume_specification[ String::push ](string: &mut String, ch: char)
    ensures
        final(string)@ == old(string)@.push(ch),
;

/// The number of bytes of the UTF-8 encoding of `s`: what `str::len` returns.
pub open spec fn byte_len(s: Seq<char>) -> nat {
    encode_utf8(s).len()
}

/// The number of bytes of the UTF-8 encoding of one character.
pub open spec fn char_width(c: char) -> nat {
    encode_scalar(c as u32).len()
}

/// The UTF-8 encoding of a concatenation is the concatenation of encodings.
pub proof fn lemma_encode_utf8_concat(a: Seq<char>, b: Seq<char>)
    ensures
        encode_utf8(a + b) == encode_utf8(a) + encode_utf8(b),
    decreases a.len(),
{
    if a.len() == 0 {
        assert(a + b =~= b);
        assert(encode_utf8(a) =~= Seq::<u8>::empty());
        assert(encode_utf8(a) + encode_utf8(b) =~= encode_utf8(b));
    } else {
        assert((a + b)[0] == a[0]);
        assert((a + b).drop_first() =~= a.drop_first() + b);
        lemma_encode_utf8_concat(a.drop_first(), b);
        assert(encode_utf8(a + b) == encode_scalar(a[0] as u32) + encode_utf8(a.drop_first() + b));
        assert(encode_utf8(a) == encode_scalar(a[0] as u32) + encode_utf8(a.drop_first()));
        assert(encode_utf8(a + b) =~= encode_utf8(a) + encode_utf8(b));
    }
}

/// Byte lengths add up over a concatenation.
pub proof fn lemma_byte_len_concat(a: Seq<char>, b: Seq<char>)
    ensures
        byte_len(a + b) == byte_len(a) + byte_len(b),
{
    lemma_encode_utf8_concat(a, b);
}

/// The byte length of one character is between one and four.
pub proof fn lemma_char_width_bounds(c: char)
    ensures
        1 <= char_width(c) <= 4,
        byte_len(seq![c]) == char_width(c),
{
    assert(seq![c].drop_first() =~= Seq::<char>::empty());
    assert(encode_utf8(Seq::<char>::empty()) =~= Seq::<u8>::empty());
    assert(encode_utf8(seq![c]) =~= encode_scalar(c as u32) + encode_utf8(Seq::<char>::empty()));
}

/// Appending a character adds its width to the byte length.
pub proof fn lemma_byte_len_push(s: Seq<char>, c: char)
    ensures
        byte_len(s.push(c)) == byte_len(s) + char_width(c),
{
    assert(s.push(c) =~= s + seq![c]);
    lemma_byte_len_concat(s, seq![c]);
    lemma_char_width_bounds(c);
}

/// The number of bytes `c` takes in UTF-8.
pub fn utf8_width(c: char) -> (w: usize)
    ensures
        w == char_width(c),
        1 <= w <= 4,
{
    broadcast use vstd::utf8::char_is_scalar;

    let v = c as u32;
    proof {
        lemma_char_width_bounds(c);
        assert(is_scalar(c as u32));
    }
    if v <= 0x7F {
        1
    } else if v <= 0x7FF {
        2
    } else if v <= 0xFFFF {
        3
    } else {
        4
    }
}

/// The characters of `s`, in order.
pub fn chars_of(s: &str) -> (v: Vec<char>)
    ensures
        v@ == s@,
{
    let mut v: Vec<char> = Vec::new();
    for c in it: s.chars()
        invariant
            v@ == it.seq().take(it.index() as int),
    {
        v.push(c);
    }
    v
}

/// The string made of the characters `cs`.
pub fn string_of(cs: &[char]) -> (s: String)
    ensures
        s@ == cs@,
{
    let mut s = String::new();
    let mut i: usize = 0;
    while i < cs.len()
        invariant
            i <= cs@.len(),
            s@ == cs@.take(i as int),
        decreases cs@.len() - i,
    {
        s.push(cs[i]);
        assert(cs@.take(i + 1) =~= cs@.take(i as int).push(cs@[i as int]));
        i = i + 1;
    }
    assert(cs@.take(cs@.len() as int) =~= cs@);
    s
}

/// How many leading characters of `s` fit, as a whole, in `n` bytes.
pub open spec fn chars_within(s: Seq<char>, n: int) -> nat
    decreases s.len(),
{
    if s.len() == 0 || char_width(s[0]) > n {
        0
    } else {
        1 + chars_within(s.drop_first(), n - char_width(s[0]))
    }
}

/// Byte `n` of the UTF-8 encoding of `s` is where a character starts (or the
/// end): the leading characters that fit in `n` bytes take exactly `n`.
pub open spec fn is_byte_boundary(s: Seq<char>, n: int) -> bool {
    byte_len(s.take(chars_within(s, n) as int)) == n
}

/// The characters of `s` that lie before byte `n`; when `n` is a boundary,
/// this is the string slice `&s[..n]`.
pub open spec fn byte_prefix(s: Seq<char>, n: int) -> Seq<char> {
    s.take(chars_within(s, n) as int)
}

/// At most all of the characters fit.
pub proof fn lemma_chars_within_bound(s: Seq<char>, n: int)
    ensures
        chars_within(s, n) <= s.len(),
    decreases s.len(),
{
    if s.len() != 0 && char_width(s[0]) <= n {
        lemma_chars_within_bound(s.drop_first(), n - char_width(s[0]));
    }
}

/// All of `s` fits in `n` bytes exactly when its byte length is at most `n`.
pub proof fn lemma_fits_all(s: Seq<char>, n: int)
    requires
        0 <= n,
    ensures
        (chars_within(s, n) == s.len()) <==> (byte_len(s) <= n),
    decreases s.len(),
{
    lemma_chars_within_bound(s, n);
    if s.len() == 0 {
        assert(encode_utf8(s) =~= Seq::<u8>::empty());
    } else {
        let c = s[0];
        let rest = s.drop_first();
        lemma_char_width_bounds(c);
        assert(s =~= seq![c] + rest);
        lemma_byte_len_concat(seq![c], rest);
        if char_width(c) <= n {
            lemma_fits_all(rest, n - char_width(c));
        }
    }
}

/// The number of leading characters of `cs` that fit in `n` bytes, and the
/// number of bytes they take.
pub fn fit_prefix(cs: &[char], n: usize) -> (r: (usize, usize))
    ensures
        r.0 == chars_within(cs@, n as int),
        r.0 <= cs@.len(),
        r.1 == byte_len(cs@.take(r.0 as int)),
        r.1 <= n,
{
    let len = cs.len();
    let mut i: usize = 0;
    let mut used: usize = 0;
    let mut full = false;
    assert(cs@.take(0) =~= Seq::<char>::empty());
    assert(cs@.skip(0) =~= cs@);
    while i < len && !full
        invariant
            len == cs@.len(),
            i <= len,
            used <= n,
            used == byte_len(cs@.take(i as int)),
            full ==> chars_within(cs@.skip(i as int), n - used) == 0,
            chars_within(cs@, n as int) == i + chars_within(cs@.skip(i as int), n - used),
        decreases len - i + (if full { 0int } else { 1int }),
    {
        let c = cs[i];
        let w = utf8_width(c);
        let ghost t = cs@.skip(i as int);
        assert(t[0] == c);
        assert(t.drop_first() =~= cs@.skip(i + 1));
        if w > n - used {
            full = true;
        } else {
            proof {
                assert(cs@.take(i + 1) =~= cs@.take(i as int).push(c));
                lemma_byte_len_push(cs@.take(i as int), c);
            }
            used = used + w;
            i = i + 1;
        }
    }
    if !full {
        assert(cs@.skip(i as int) =~= Seq::<char>::empty());
    }
    (i, used)
}

/// The characters with the Unicode `White_Space` property, which std's
/// `char::is_whitespace` and `str::trim` go by.
pub open spec fn is_white_space(c: char) -> bool {
    let v = c as u32;
    ||| 0x09 <= v <= 0x0D
    ||| v == 0x20
    ||| v == 0x85
    ||| v == 0xA0
    ||| v == 0x1680
    ||| 0x2000 <= v <= 0x200A
    ||| v == 0x2028
    ||| v == 0x2029
    ||| v == 0x202F
    ||| v == 0x205F
    ||| v == 0x3000
}

/// Whether `c` is white space.
pub fn white_space(c: char) -> (b: bool)
    ensures
        b == is_white_space(c),
{
    let v = c as u32;
    (0x09 <= v && v <= 0x0D) || v == 0x20 || v == 0x85 || v == 0xA0 || v == 0x1680 || (0x2000 <= v
        && v <= 0x200A) || v == 0x2028 || v == 0x2029 || v == 0x202F || v == 0x205F || v == 0x3000
}

/// `s` without its leading white space.
pub open spec fn trim_start(s: Seq<char>) -> Seq<char>
    decreases s.len(),
{
    if s.len() > 0 && is_white_space(s[0]) {
        trim_start(s.drop_first())
    } else {
        s
    }
}

/// `s` without its trailing white space.
pub open spec fn trim_end(s: Seq<char>) -> Seq<char>
    decreases s.len(),
{
    if s.len() > 0 && is_white_space(s.last()) {
        trim_end(s.drop_last())
    } else {
        s
    }
}

/// `s` without leading and trailing white space, as std's `str::trim`.
pub open spec fn trim(s: Seq<char>) -> Seq<char> {
    trim_end(trim_start(s))
}

/// The characters of `cs[from..]` without leading and trailing white space.
pub fn trimmed(cs: &[char], from: usize) -> (t: Vec<char>)
    requires
        from <= cs@.len(),
    ensures
        t@ == trim(cs@.skip(from as int)),
{
    let n = cs.len();
    let mut i: usize = from;
    while i < n && white_space(cs[i])
        invariant
            from <= i <= n,
            n == cs@.len(),
            trim_start(cs@.skip(from as int)) == trim_start(cs@.skip(i as int)),
        decreases n - i,
    {
        assert(cs@.skip(i as int).drop_first() =~= cs@.skip(i + 1));
        i = i + 1;
    }
    let ghost start = cs@.skip(i as int);
    assert(trim_start(start) == start) by {
        if start.len() > 0 {
            assert(start[0] == cs@[i as int]);
        }
    }
    let mut j: usize = n;
    while j > i && white_space(cs[j - 1])
        invariant
            i <= j <= n,
            n == cs@.len(),
            trim_end(start) == trim_end(cs@.subrange(i as int, j as int)),
        decreases j,
    {
        assert(cs@.subrange(i as int, j as int).drop_last() =~= cs@.subrange(i as int, j - 1));
        j = j - 1;
    }
    assert(start =~= cs@.subrange(i as int, n as int));
    let ghost kept = cs@.subrange(i as int, j as int);
    assert(trim_end(kept) == kept) by {
        if kept.len() > 0 {
            assert(kept.last() == cs@[j - 1]);
        }
    }
    let mut t: Vec<char> = Vec::new();
    let mut k: usize = i;
    while k < j
        invariant
            i <= k <= j,
            j <= n,
            n == cs@.len(),
            t@ == cs@.subrange(i as int, k as int),
        decreases j - k,
    {
        t.push(cs[k]);
        assert(cs@.subrange(i as int, k + 1) =~= cs@.subrange(i as int, k as int).push(cs@[k as int]));
        k = k + 1;
    }
    t
}

/// `s` begins with `p`.
pub open spec fn starts_with(s: Seq<char>, p: Seq<char>) -> bool {
    p.len() <= s.len() && s.take(p.len() as int) == p
}

/// Whether `cs` begins with `p`.
pub fn has_prefix(cs: &[char], p: &[char]) -> (b: bool)
    ensures
        b == starts_with(cs@, p@),
{
    if p.len() > cs.len() {
        return false;
    }
    let mut i: usize = 0;
    while i < p.len()
        invariant
            i <= p@.len() <= cs@.len(),
            forall|j: int| 0 <= j < i ==> cs@[j] == p@[j],
        decreases p@.len() - i,
    {
        if cs[i] != p[i] {
            assert(cs@.take(p@.len() as int)[i as int] != p@[i as int]);
            return false;
        }
        i = i + 1;
    }
    assert(cs@.take(p@.len() as int) =~= p@);
    true
}

/// Whether `cs` is exactly `p`.
pub fn same_chars(cs: &[char], p: &[char]) -> (b: bool)
    ensures
        b == (cs@ == p@),
{
    let b = cs.len() == p.len() && has_prefix(cs, p);
    if cs.len() == p.len() {
        assert(cs@.take(p@.len() as int) =~= cs@);
    }
    b
}

} // verus!
