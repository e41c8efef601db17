//! Character-level helpers shared by the parsers of this crate.

use vstd::prelude::*;

verus! {

/// Whether `c` carries the Unicode `White_Space` property.
pub open spec fn is_whitespace(c: char) -> bool {
    let n = c as u32;
    ||| 0x09 <= n <= 0x0D
    ||| n == 0x20
    ||| n == 0x85
    ||| n == 0xA0
    ||| n == 0x1680
    ||| 0x2000 <= n <= 0x200A
    ||| n == 0x2028
    ||| n == 0x2029
    ||| n == 0x202F
    ||| n == 0x205F
    ||| n == 0x3000
}

/// `s` without its leading whitespace.
pub open spec fn trim_start(s: Seq<char>) -> Seq<char>
    decreases s.len(),
{
    if s.len() > 0 && is_whitespace(s.first()) {
        trim_start(s.drop_first())
    } else {
        s
    }
}

/// `s` without its trailing whitespace.
pub open spec fn trim_end(s: Seq<char>) -> Seq<char>
    decreases s.len(),
{
    if s.len() > 0 && is_whitespace(s.last()) {
        trim_end(s.drop_last())
    } else {
        s
    }
}

/// `s` without its leading and trailing whitespace.
pub open spec fn trim(s: Seq<char>) -> Seq<char> {
    trim_end(trim_start(s))
}

/// Whether every character of `s` is whitespace.
pub open spec fn all_whitespace(s: Seq<char>) -> bool {
    forall|i: int| 0 <= i < s.len() ==> is_whitespace(#[trigger] s[i])
}

/// Where `trim_start` cuts: the position `lo` of the first character of `s`
/// that is not whitespace, or the length of `s` if there is none.
pub proof fn lemma_trim_start(s: Seq<char>) -> (lo: int)
    ensures
        0 <= lo <= s.len(),
        trim_start(s) == s.subrange(lo, s.len() as int),
        all_whitespace(s.subrange(0, lo)),
        lo < s.len() ==> !is_whitespace(s[lo]),
    decreases s.len(),
{
    if s.len() > 0 && is_whitespace(s.first()) {
        let inner = lemma_trim_start(s.drop_first());
        let lo = inner + 1;
        assert(s.drop_first().subrange(inner, s.len() - 1) =~= s.subrange(lo, s.len() as int));
        assert forall|i: int| 0 <= i < lo implies is_whitespace(
            #[trigger] s.subrange(0, lo)[i],
        ) by {
            if i > 0 {
                assert(s.subrange(0, lo)[i] == s.drop_first().subrange(0, inner)[i - 1]);
            }
        }
        lo
    } else {
        assert(s.subrange(0, s.len() as int) =~= s);
        0
    }
}

/// Where `trim_end` cuts: the position `hi` just after the last character of
/// `s` that is not whitespace, or zero if there is none.
pub proof fn lemma_trim_end(s: Seq<char>) -> (hi: int)
    ensures
        0 <= hi <= s.len(),
        trim_end(s) == s.subrange(0, hi),
        all_whitespace(s.subrange(hi, s.len() as int)),
        hi > 0 ==> !is_whitespace(s[hi - 1]),
    decreases s.len(),
{
    if s.len() > 0 && is_whitespace(s.last()) {
        let hi = lemma_trim_end(s.drop_last());
        assert(s.drop_last().subrange(0, hi) =~= s.subrange(0, hi));
        assert forall|i: int| 0 <= i < s.len() - hi implies is_whitespace(
            #[trigger] s.subrange(hi, s.len() as int)[i],
        ) by {
            if i < s.len() - hi - 1 {
                assert(s.subrange(hi, s.len() as int)[i] == s.drop_last().subrange(
                    hi,
                    s.len() - 1,
                )[i]);
            }
        }
        hi
    } else {
        assert(s.subrange(0, s.len() as int) =~= s);
        s.len() as int
    }
}

/// What `trim` leaves of `s`: the stretch from `lo` to `hi`, which neither
/// begins nor ends with whitespace, while all that `s` holds before and
/// after it is whitespace.
pub proof fn lemma_trim(s: Seq<char>) -> (bounds: (int, int))
    ensures
        0 <= bounds.0 <= bounds.1 <= s.len(),
        trim(s) == s.subrange(bounds.0, bounds.1),
        all_whitespace(s.subrange(0, bounds.0)),
        all_whitespace(s.subrange(bounds.1, s.len() as int)),
        bounds.0 < bounds.1 ==> !is_whitespace(s[bounds.0]) && !is_whitespace(s[bounds.1 - 1]),
{
    let lo = lemma_trim_start(s);
    let tail = s.subrange(lo, s.len() as int);
    let cut = lemma_trim_end(tail);
    let hi = lo + cut;
    assert(tail.subrange(0, cut) =~= s.subrange(lo, hi));
    assert(tail.subrange(cut, tail.len() as int) =~= s.subrange(hi, s.len() as int));
    if cut > 0 {
        assert(tail[cut - 1] == s[hi - 1]);
    }
    (lo, hi)
}

/// Decides whether `c` is whitespace.
pub fn is_whitespace_char(c: char) -> (b: bool)
    ensures
        b == is_whitespace(c),
{
    let n: u32 = c as u32;
    (0x09 <= n && n <= 0x0D) || n == 0x20 || n == 0x85 || n == 0xA0 || n == 0x1680 || (0x2000 <= n
        && n <= 0x200A) || n == 0x2028 || n == 0x2029 || n == 0x202F || n == 0x205F || n == 0x3000
}

/// The characters of `s`, in order.
pub fn chars_of(s: &str) -> (chars: Vec<char>)
    ensures
        chars@ == s@,
{
    let mut chars: Vec<char> = Vec::new();
    for c in it: s.chars()
        invariant
            chars@ == it.seq().take(it.index()),
            it.seq() == s@,
    {
        chars.push(c);
    }
    chars
}

/// Skipping leading whitespace one character at a time leaves `trim_start`
/// unchanged.
proof fn lemma_trim_start_step(s: Seq<char>, lo: int)
    requires
        0 <= lo < s.len(),
        is_whitespace(s[lo]),
    ensures
        trim_start(s.subrange(lo, s.len() as int)) == trim_start(
            s.subrange(lo + 1, s.len() as int),
        ),
{
    let tail = s.subrange(lo, s.len() as int);
    assert(tail.first() == s[lo]);
    assert(tail.drop_first() =~= s.subrange(lo + 1, s.len() as int));
}

/// Dropping trailing whitespace one character at a time leaves `trim_end`
/// unchanged.
proof fn lemma_trim_end_step(s: Seq<char>, lo: int, hi: int)
    requires
        0 <= lo < hi <= s.len(),
        is_whitespace(s[hi - 1]),
    ensures
        trim_end(s.subrange(lo, hi)) == trim_end(s.subrange(lo, hi - 1)),
{
    let part = s.subrange(lo, hi);
    assert(part.last() == s[hi - 1]);
    assert(part.drop_last() =~= s.subrange(lo, hi - 1));
}

/// The bounds `(lo, hi)` of the trimmed part of `chars[from..]`.
pub(crate) fn trim_bounds(chars: &Vec<char>, from: usize) -> (bounds: (usize, usize))
    requires
        from <= chars.len(),
    ensures
        from <= bounds.0 <= bounds.1 <= chars.len(),
        chars@.subrange(bounds.0 as int, bounds.1 as int) == trim(
            chars@.subrange(from as int, chars.len() as int),
        ),
{
    let len = chars.len();
    let mut lo: usize = from;
    while lo < len && is_whitespace_char(chars[lo])
        invariant
            len == chars.len(),
            from <= lo <= len,
            trim_start(chars@.subrange(from as int, len as int)) == trim_start(
                chars@.subrange(lo as int, len as int),
            ),
        decreases len - lo,
    {
        proof {
            lemma_trim_start_step(chars@, lo as int);
        }
        lo = lo + 1;
    }
    assert(trim_start(chars@.subrange(lo as int, len as int)) == chars@.subrange(
        lo as int,
        len as int,
    )) by {
        let tail = chars@.subrange(lo as int, len as int);
        if lo < len {
            assert(tail.first() == chars@[lo as int]);
        }
    }
    let mut hi: usize = len;
    while lo < hi && is_whitespace_char(chars[hi - 1])
        invariant
            len == chars.len(),
            lo <= hi <= len,
            trim_end(chars@.subrange(lo as int, len as int)) == trim_end(
                chars@.subrange(lo as int, hi as int),
            ),
        decreases hi - lo,
    {
        proof {
            lemma_trim_end_step(chars@, lo as int, hi as int);
        }
        hi = hi - 1;
    }
    assert(trim_end(chars@.subrange(lo as int, hi as int)) == chars@.subrange(
        lo as int,
        hi as int,
    )) by {
        let part = chars@.subrange(lo as int, hi as int);
        if lo < hi {
            assert(part.last() == chars@[hi - 1]);
        }
    }
    (lo, hi)
}

} // verus!
