//! Byte-level text utilities for the pieces of HTTP syntax the runner
//! validates itself: token characters, whitespace trimming, and a
//! first-occurrence search used to split `"Name: Value"` header lines.

use vstd::prelude::*;

verus! {

/// ASCII whitespace, as trimmed from the two sides of a header name or value.
pub open spec fn is_space(b: u8) -> bool {
    b == 9 || b == 10 || b == 11 || b == 12 || b == 13 || b == 32
}

/// Token characters (RFC 9110 `tchar`): the bytes allowed in an HTTP method
/// and in a header field name.
pub open spec fn is_tchar(b: u8) -> bool {
    ||| b == 33
    ||| 35 <= b && b <= 39
    ||| b == 42 || b == 43 || b == 45 || b == 46
    ||| 48 <= b && b <= 57
    ||| 65 <= b && b <= 90
    ||| b == 94 || b == 95 || b == 96
    ||| 97 <= b && b <= 122
    ||| b == 124 || b == 126
}

/// ASCII lowercasing of one byte.
pub open spec fn to_lower(b: u8) -> u8 {
    if 65 <= b && b <= 90 {
        (b + 32) as u8
    } else {
        b
    }
}

/// ASCII lowercasing of a byte sequence.
pub open spec fn lower_bytes(s: Seq<u8>) -> Seq<u8> {
    s.map_values(|b: u8| to_lower(b))
}

/// The sequence with leading whitespace removed.
pub open spec fn trim_front(s: Seq<u8>) -> Seq<u8>
    decreases s.len(),
{
    if s.len() > 0 && is_space(s[0]) {
        trim_front(s.drop_first())
    } else {
        s
    }
}

/// The sequence with trailing whitespace removed.
pub open spec fn trim_back(s: Seq<u8>) -> Seq<u8>
    decreases s.len(),
{
    if s.len() > 0 && is_space(s[s.len() - 1]) {
        trim_back(s.drop_last())
    } else {
        s
    }
}

/// The sequence with whitespace removed from both sides.
pub open spec fn trimmed(s: Seq<u8>) -> Seq<u8> {
    trim_back(trim_front(s))
}

/// Index of the first occurrence of `b` in `s`, or -1 if absent.
pub open spec fn find_byte(s: Seq<u8>, b: u8) -> int
    decreases s.len(),
{
    if s.len() == 0 {
        -1
    } else if s[0] == b {
        0
    } else {
        let r = find_byte(s.drop_first(), b);
        if r < 0 {
            -1
        } else {
            r + 1
        }
    }
}

/// `find_byte` returns -1 exactly when `b` is absent, and otherwise the
/// first index holding `b`.
pub proof fn lemma_find_byte_props(s: Seq<u8>, b: u8)
    ensures
        find_byte(s, b) == -1 ==> forall|j: int| 0 <= j < s.len() ==> s[j] != b,
        find_byte(s, b) != -1 ==> {
            let r = find_byte(s, b);
            &&& 0 <= r < s.len()
            &&& s[r] == b
            &&& forall|j: int| 0 <= j < r ==> s[j] != b
        },
    decreases s.len(),
{
    if s.len() == 0 {
    } else if s[0] == b {
    } else {
        let t = s.drop_first();
        lemma_find_byte_props(t, b);
        if find_byte(t, b) == -1 {
            assert forall|j: int| 0 <= j < s.len() implies s[j] != b by {
                if j > 0 {
                    assert(t[j - 1] == s[j]);
                }
            }
        } else {
            let r = find_byte(t, b);
            assert(s[r + 1] == t[r]);
            assert forall|j: int| 0 <= j < r + 1 implies s[j] != b by {
                if j > 0 {
                    assert(t[j - 1] == s[j]);
                }
            }
        }
    }
}

pub fn byte_is_space(b: u8) -> (r: bool)
    ensures
        r == is_space(b),
{
    b == 9 || b == 10 || b == 11 || b == 12 || b == 13 || b == 32
}

pub fn byte_is_tchar(b: u8) -> (r: bool)
    ensures
        r == is_tchar(b),
{
    b == 33 || (35 <= b && b <= 39) || b == 42 || b == 43 || b == 45 || b == 46 || (48 <= b && b
        <= 57) || (65 <= b && b <= 90) || b == 94 || b == 95 || b == 96 || (97 <= b && b <= 122)
        || b == 124 || b == 126
}

pub fn lower_byte(b: u8) -> (r: u8)
    ensures
        r == to_lower(b),
{
    if 65 <= b && b <= 90 {
        b + 32
    } else {
        b
    }
}

/// Copy of `s[from..to]`.
pub fn subvec(s: &Vec<u8>, from: usize, to: usize) -> (r: Vec<u8>)
    requires
        from <= to <= s@.len(),
    ensures
        r@ == s@.subrange(from as int, to as int),
{
    let mut r: Vec<u8> = Vec::new();
    let mut i: usize = from;
    while i < to
        invariant
            from <= i <= to <= s@.len(),
            r@ == s@.subrange(from as int, i as int),
        decreases to - i,
    {
        r.push(s[i]);
        assert(s@.subrange(from as int, i + 1 as int) == s@.subrange(from as int, i as int).push(
            s@[i as int],
        ));
        i += 1;
    }
    r
}

/// Copy of `s` with ASCII whitespace removed from both sides.
pub fn trim_bytes(s: &Vec<u8>) -> (r: Vec<u8>)
    ensures
        r@ == trimmed(s@),
{
    let mut start: usize = 0;
    assert(s@.skip(0) =~= s@);
    while start < s.len() && byte_is_space(s[start])
        invariant
            0 <= start <= s@.len(),
            trim_front(s@) == trim_front(s@.skip(start as int)),
        decreases s@.len() - start,
    {
        assert(s@.skip(start as int).drop_first() =~= s@.skip(start + 1));
        start += 1;
    }
    assert(trim_front(s@) == s@.skip(start as int));

    let mut end: usize = s.len();
    assert(s@.skip(start as int) =~= s@.subrange(start as int, s@.len() as int));
    while end > start && byte_is_space(s[end - 1])
        invariant
            start <= end <= s@.len(),
            trim_back(trim_front(s@)) == trim_back(s@.subrange(start as int, end as int)),
        decreases end,
    {
        assert(s@.subrange(start as int, end as int).drop_last() =~= s@.subrange(
            start as int,
            end - 1,
        ));
        end -= 1;
    }
    assert(trim_back(s@.subrange(start as int, end as int)) == s@.subrange(
        start as int,
        end as int,
    ));
    subvec(s, start, end)
}

} // verus!
