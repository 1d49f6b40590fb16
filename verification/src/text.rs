//! Byte-level text utilities: substring search, ASCII trimming, suffix
//! stripping, and best-effort parsing of decimal numbers into thousandths
//! (the library's fixed-point unit).
//!
//! All routines work on UTF-8 bytes; the tokens they look for are ASCII.

use vstd::prelude::*;

verus! {

/// Largest integer part a parsed number may have, in whole units.
pub const PARSE_MAX: i64 = 1_000_000_000;

/// The UTF-8 bytes of a character sequence; the byte-level view of the
/// strings this library works on.
pub open spec fn utf8_bytes(s: Seq<char>) -> Seq<u8> {
    vstd::utf8::encode_utf8(s)
}

/// ASCII whitespace, as Rust's `trim` sees it within the ASCII range.
pub open spec fn is_ws(b: u8) -> bool {
    b == 32 || (9 <= b && b <= 13)
}

/// ASCII decimal digit.
pub open spec fn is_digit(b: u8) -> bool {
    48 <= b && b <= 57
}

pub open spec fn all_digits(s: Seq<u8>) -> bool {
    forall|i: int| 0 <= i < s.len() ==> is_digit(#[trigger] s[i])
}

/// Index of the first occurrence of `n` in `h` at or after `i`.
pub open spec fn spec_find_from(h: Seq<u8>, n: Seq<u8>, i: int) -> Option<int>
    decreases h.len() + 1 - i,
{
    if i < 0 || i + n.len() > h.len() {
        None
    } else if h.subrange(i, i + n.len() as int) == n {
        Some(i)
    } else {
        spec_find_from(h, n, i + 1)
    }
}

/// Index of the first occurrence of `n` in `h`.
pub open spec fn spec_find(h: Seq<u8>, n: Seq<u8>) -> Option<int> {
    spec_find_from(h, n, 0)
}

pub open spec fn spec_contains(h: Seq<u8>, n: Seq<u8>) -> bool {
    spec_find(h, n) is Some
}

/// Index of the first occurrence of byte `b` at or after `i`.
pub open spec fn spec_find_byte_from(s: Seq<u8>, b: u8, i: int) -> Option<int>
    decreases s.len() - i,
{
    if i < 0 || i >= s.len() {
        None
    } else if s[i] == b {
        Some(i)
    } else {
        spec_find_byte_from(s, b, i + 1)
    }
}

/// A hit of `spec_find_from` lies within bounds and matches.
pub proof fn lemma_find_from_some(h: Seq<u8>, n: Seq<u8>, from: int)
    requires
        spec_find_from(h, n, from) is Some,
    ensures
        from <= spec_find_from(h, n, from).unwrap(),
        0 <= spec_find_from(h, n, from).unwrap(),
        spec_find_from(h, n, from).unwrap() + n.len() <= h.len(),
        h.subrange(
            spec_find_from(h, n, from).unwrap(),
            spec_find_from(h, n, from).unwrap() + n.len(),
        ) == n,
    decreases h.len() + 1 - from,
{
    if !(from < 0 || from + n.len() > h.len()) && h.subrange(from, from + n.len() as int) != n {
        lemma_find_from_some(h, n, from + 1);
    }
}

/// A hit of `spec_find_byte_from` lies within bounds and matches.
pub proof fn lemma_find_byte_from_some(s: Seq<u8>, b: u8, from: int)
    requires
        spec_find_byte_from(s, b, from) is Some,
    ensures
        from <= spec_find_byte_from(s, b, from).unwrap(),
        0 <= spec_find_byte_from(s, b, from).unwrap() < s.len(),
        s[spec_find_byte_from(s, b, from).unwrap()] == b,
    decreases s.len() - from,
{
    if !(from < 0 || from >= s.len()) && s[from] != b {
        lemma_find_byte_from_some(s, b, from + 1);
    }
}

pub open spec fn trim_front_spec(s: Seq<u8>) -> Seq<u8>
    decreases s.len(),
{
    if s.len() > 0 && is_ws(s[0]) {
        trim_front_spec(s.drop_first())
    } else {
        s
    }
}

pub open spec fn trim_back_spec(s: Seq<u8>) -> Seq<u8>
    decreases s.len(),
{
    if s.len() > 0 && is_ws(s.last()) {
        trim_back_spec(s.drop_last())
    } else {
        s
    }
}

/// Leading and trailing ASCII whitespace removed.
pub open spec fn trim_spec(s: Seq<u8>) -> Seq<u8> {
    trim_back_spec(trim_front_spec(s))
}

/// Every trailing occurrence of the (non-empty) suffix removed.
pub open spec fn strip_suffix_all_spec(s: Seq<u8>, suf: Seq<u8>) -> Seq<u8>
    decreases s.len(),
{
    if suf.len() > 0 && s.len() >= suf.len() && s.subrange(
        s.len() - suf.len(),
        s.len() as int,
    ) == suf {
        strip_suffix_all_spec(s.take(s.len() - suf.len()), suf)
    } else {
        s
    }
}

/// Value of a sequence of ASCII digits, most significant first.
pub open spec fn digits_val(s: Seq<u8>) -> int
    decreases s.len(),
{
    if s.len() == 0 {
        0
    } else {
        digits_val(s.drop_last()) * 10 + (s.last() - 48)
    }
}

/// Value contributed by a fractional-digit run, in thousandths: only the
/// first three digits matter.
pub open spec fn frac_milli(frac: Seq<u8>) -> int {
    if frac.len() == 0 {
        0
    } else if frac.len() == 1 {
        (frac[0] - 48) * 100
    } else if frac.len() == 2 {
        digits_val(frac) * 10
    } else {
        digits_val(frac.take(3))
    }
}

/// Best-effort decimal parse into thousandths: an optional sign, then
/// digits with at most one point and at least one digit in all.  Fractional
/// digits beyond the third are ignored; an integer part above `PARSE_MAX`
/// or any other shape fails.
pub open spec fn spec_parse_milli(s: Seq<u8>) -> Option<i64> {
    if s.len() > 0 && (s[0] == 43 || s[0] == 45) {
        spec_parse_unsigned_milli(s.drop_first(), s[0] == 45)
    } else {
        spec_parse_unsigned_milli(s, false)
    }
}

pub open spec fn spec_parse_unsigned_milli(body: Seq<u8>, neg: bool) -> Option<i64> {
    let dot = spec_find_byte_from(body, 46, 0);
    let int_part = if dot is Some {
        body.take(dot.unwrap())
    } else {
        body
    };
    let frac_part = if dot is Some {
        body.skip(dot.unwrap() + 1)
    } else {
        Seq::<u8>::empty()
    };
    if all_digits(int_part) && all_digits(frac_part) && int_part.len() + frac_part.len() >= 1
        && digits_val(int_part) <= PARSE_MAX {
        let m = digits_val(int_part) * 1000 + frac_milli(frac_part);
        if neg {
            Some((-m) as i64)
        } else {
            Some(m as i64)
        }
    } else {
        None
    }
}

proof fn lemma_digits_val_nonneg(s: Seq<u8>)
    requires
        all_digits(s),
    ensures
        digits_val(s) >= 0,
    decreases s.len(),
{
    if s.len() > 0 {
        assert(all_digits(s.drop_last()));
        lemma_digits_val_nonneg(s.drop_last());
    }
}

proof fn lemma_digits_val_prefix(s: Seq<u8>, i: int)
    requires
        all_digits(s),
        0 <= i <= s.len(),
    ensures
        digits_val(s.take(i)) <= digits_val(s),
    decreases s.len(),
{
    if i == s.len() {
        assert(s.take(i) =~= s);
    } else {
        assert(all_digits(s.drop_last()));
        lemma_digits_val_nonneg(s.drop_last());
        assert(s.take(i) =~= s.drop_last().take(i));
        lemma_digits_val_prefix(s.drop_last(), i);
    }
}

proof fn lemma_digits_val_step(s: Seq<u8>, i: int)
    requires
        0 <= i < s.len(),
    ensures
        digits_val(s.take(i + 1)) == digits_val(s.take(i)) * 10 + (s[i] - 48),
{
    assert(s.take(i + 1).drop_last() =~= s.take(i));
    assert(s.take(i + 1).last() == s[i]);
}

/// Do the bytes of `n` stand in `h` at position `i`?
pub fn match_at(h: &[u8], n: &[u8], i: usize) -> (r: bool)
    requires
        i + n@.len() <= h@.len(),
    ensures
        r == (h@.subrange(i as int, i + n@.len()) == n@),
{
    let hl = h.len();
    let mut j: usize = 0;
    while j < n.len()
        invariant
            0 <= j <= n@.len(),
            i + n@.len() <= h@.len(),
            hl == h@.len(),
            forall|k: int| 0 <= k < j ==> h@[i + k] == n@[k],
        decreases n@.len() - j,
    {
        assert(i + j < h@.len());
        if h[i + j] != n[j] {
            assert(h@.subrange(i as int, i + n@.len())[j as int] != n@[j as int]);
            return false;
        }
        j += 1;
    }
    assert(h@.subrange(i as int, i + n@.len()) =~= n@);
    true
}

/// Are two byte strings equal?
pub fn bytes_eq(a: &[u8], b: &[u8]) -> (r: bool)
    ensures
        r == (a@ == b@),
{
    if a.len() != b.len() {
        return false;
    }
    let r = match_at(a, b, 0);
    proof {
        assert(a@.subrange(0, b@.len() as int) =~= a@);
    }
    r
}

/// First occurrence of `n` in `h`, if any.
pub fn find_subslice(h: &[u8], n: &[u8]) -> (r: Option<usize>)
    ensures
        r is Some <==> spec_find(h@, n@) is Some,
        r is Some ==> spec_find(h@, n@) == Some(r.unwrap() as int),
{
    if n.len() > h.len() {
        return None;
    }
    let mut i: usize = 0;
    loop
        invariant
            0 <= i,
            i + n@.len() <= h@.len(),
            spec_find(h@, n@) == spec_find_from(h@, n@, i as int),
        decreases h@.len() - i,
    {
        if match_at(h, n, i) {
            return Some(i);
        }
        if i == h.len() - n.len() {
            proof {
                assert(spec_find_from(h@, n@, i as int + 1) is None);
            }
            return None;
        }
        i += 1;
    }
}

/// First occurrence of byte `b` in `s`, if any.
pub fn find_byte(s: &[u8], b: u8) -> (r: Option<usize>)
    ensures
        r is Some <==> spec_find_byte_from(s@, b, 0) is Some,
        r is Some ==> spec_find_byte_from(s@, b, 0) == Some(r.unwrap() as int),
{
    let n = s.len();
    let mut i: usize = 0;
    while i < n && s[i] != b
        invariant
            0 <= i <= n,
            n == s@.len(),
            spec_find_byte_from(s@, b, 0) == spec_find_byte_from(s@, b, i as int),
        decreases n - i,
    {
        i += 1;
    }
    if i < n {
        Some(i)
    } else {
        None
    }
}

proof fn lemma_trim_front_chars(s: Seq<u8>, a: int)
    requires
        0 <= a <= s.len(),
        forall|k: int| 0 <= k < a ==> is_ws(#[trigger] s[k]),
        a < s.len() ==> !is_ws(s[a]),
    ensures
        trim_front_spec(s) == s.skip(a),
    decreases a,
{
    if a == 0 {
        assert(s.skip(0) =~= s);
    } else {
        assert(is_ws(s[0]));
        let t = s.drop_first();
        assert(forall|k: int| 0 <= k < a - 1 ==> is_ws(#[trigger] t[k]));
        lemma_trim_front_chars(t, a - 1);
        assert(t.skip(a - 1) =~= s.skip(a));
    }
}

proof fn lemma_trim_back_chars(s: Seq<u8>, b: int)
    requires
        0 <= b <= s.len(),
        forall|k: int| b <= k < s.len() ==> is_ws(#[trigger] s[k]),
        b > 0 ==> !is_ws(s[b - 1]),
    ensures
        trim_back_spec(s) == s.take(b),
    decreases s.len(),
{
    if b == s.len() {
        if s.len() == 0 || !is_ws(s.last()) {
            assert(s.take(b) =~= s);
        } else {
            assert(false);
        }
    } else {
        assert(is_ws(s.last()));
        let t = s.drop_last();
        lemma_trim_back_chars(t, b);
        assert(t.take(b) =~= s.take(b));
    }
}

/// Leading and trailing ASCII whitespace removed.
pub fn trim_ascii(s: &[u8]) -> (r: &[u8])
    ensures
        r@ == trim_spec(s@),
{
    let mut start: usize = 0;
    while start < s.len() && (s[start] == 32 || (9 <= s[start] && s[start] <= 13))
        invariant
            0 <= start <= s@.len(),
            forall|k: int| 0 <= k < start ==> is_ws(#[trigger] s@[k]),
        decreases s@.len() - start,
    {
        start += 1;
    }
    let mut end: usize = s.len();
    while end > start && (s[end - 1] == 32 || (9 <= s[end - 1] && s[end - 1] <= 13))
        invariant
            start <= end <= s@.len(),
            forall|k: int| 0 <= k < start ==> is_ws(#[trigger] s@[k]),
            start < s@.len() ==> !is_ws(s@[start as int]),
            forall|k: int| end <= k < s@.len() ==> is_ws(#[trigger] s@[k]),
        decreases end,
    {
        end -= 1;
    }
    proof {
        lemma_trim_front_chars(s@, start as int);
        let f = s@.skip(start as int);
        assert(forall|k: int| end - start <= k < f.len() ==> is_ws(#[trigger] f[k]));
        lemma_trim_back_chars(f, end - start);
        assert(f.take(end - start) =~= s@.subrange(start as int, end as int));
    }
    &s[start..end]
}

/// Every trailing occurrence of the (non-empty) suffix removed.
pub fn strip_suffix_all<'a>(s: &'a [u8], suf: &[u8]) -> (r: &'a [u8])
    requires
        suf@.len() > 0,
    ensures
        r@ == strip_suffix_all_spec(s@, suf@),
{
    let mut end: usize = s.len();
    proof {
        assert(s@.subrange(0, s@.len() as int) =~= s@);
    }
    loop
        invariant
            0 <= end <= s@.len(),
            suf@.len() > 0,
            strip_suffix_all_spec(s@, suf@) == strip_suffix_all_spec(
                s@.subrange(0, end as int),
                suf@,
            ),
        decreases end,
    {
        let ghost cur = s@.subrange(0, end as int);
        if end >= suf.len() && match_at(s, suf, end - suf.len()) {
            proof {
                assert(cur.subrange(cur.len() - suf@.len(), cur.len() as int) =~= s@.subrange(
                    end - suf@.len(),
                    end as int,
                ));
                assert(cur.take(cur.len() - suf@.len()) =~= s@.subrange(
                    0,
                    end - suf@.len(),
                ));
            }
            end -= suf.len();
        } else {
            proof {
                if cur.len() >= suf@.len() {
                    assert(cur.subrange(cur.len() - suf@.len(), cur.len() as int) =~= s@.subrange(
                        end - suf@.len(),
                        end as int,
                    ));
                }
            }
            return &s[0..end];
        }
    }
}

/// Best-effort decimal parse into thousandths; see `spec_parse_milli`.
#[verifier::loop_isolation(false)]
#[verifier::rlimit(60)]
pub fn parse_milli(s: &[u8]) -> (r: Option<i64>)
    ensures
        r == spec_parse_milli(s@),
{
    let (neg, off): (bool, usize) = if s.len() > 0 && (s[0] == 43 || s[0] == 45) {
        (s[0] == 45, 1)
    } else {
        (false, 0)
    };
    let body = &s[off..s.len()];
    proof {
        if off == 1 {
            assert(body@ =~= s@.drop_first());
        } else {
            assert(body@ =~= s@);
        }
    }
    let n = body.len();
    // locate the first point
    let mut i: usize = 0;
    while i < n && body[i] != 46
        invariant
            0 <= i <= n,
            n == body@.len(),
            spec_find_byte_from(body@, 46, 0) == spec_find_byte_from(body@, 46, i as int),
        decreases n - i,
    {
        i += 1;
    }
    let dot: usize = i;
    proof {
        if dot == n {
            assert(spec_find_byte_from(body@, 46, 0) is None);
        } else {
            assert(spec_find_byte_from(body@, 46, 0) == Some(dot as int));
        }
    }
    let ghost int_part = body@.take(dot as int);
    let ghost frac_part = if dot < n {
        body@.skip(dot as int + 1)
    } else {
        Seq::<u8>::empty()
    };
    proof {
        if dot == n {
            assert(int_part =~= body@);
        }
    }
    proof {
        assert(spec_parse_milli(s@) == spec_parse_unsigned_milli(body@, neg));
    }
    // the shape must offer at least one digit
    if n == 0 || (dot == 0 && n == 1) {
        proof {
            assert(spec_parse_unsigned_milli(body@, neg) is None);
        }
        return None;
    }
    // integer part: validate digits and accumulate, capped
    let mut acc: i64 = 0;
    let mut j: usize = 0;
    while j < dot
        invariant
            0 <= j <= dot <= n,
            n == body@.len(),
            int_part == body@.take(dot as int),
            forall|k: int| 0 <= k < j ==> is_digit(#[trigger] int_part[k]),
            acc == digits_val(int_part.take(j as int)),
            0 <= acc <= PARSE_MAX,
        decreases dot - j,
    {
        let b = body[j];
        if !(48 <= b && b <= 57) {
            proof {
                assert(!is_digit(int_part[j as int]));
                assert(!all_digits(int_part));
            }
            return None;
        }
        let next = acc * 10 + (b - 48) as i64;
        proof {
            lemma_digits_val_step(int_part, j as int);
        }
        if next > PARSE_MAX {
            proof {
                if all_digits(int_part) {
                    lemma_digits_val_prefix(int_part, j as int + 1);
                    assert(digits_val(int_part) >= next);
                }
            }
            return None;
        }
        acc = next;
        j += 1;
    }
    proof {
        assert(int_part.take(dot as int) =~= int_part);
    }
    // fractional part: validate digits, take the first three for the value
    let mut f: i64 = 0;
    let mut c: usize = 0;
    if dot < n {
        let mut k: usize = dot + 1;
        while k < n
            invariant
                dot < n == body@.len(),
                dot + 1 <= k <= n,
                frac_part == body@.skip(dot as int + 1),
                forall|t: int| 0 <= t < k - dot - 1 ==> is_digit(#[trigger] frac_part[t]),
                c == if k - dot - 1 <= 3 {
                    k - dot - 1
                } else {
                    3
                },
                f == digits_val(frac_part.take(c as int)),
                0 <= f,
                c == 0 ==> f == 0,
                c == 1 ==> f <= 9,
                c == 2 ==> f <= 99,
                c >= 3 ==> f <= 999,
            decreases n - k,
        {
            let b = body[k];
            if !(48 <= b && b <= 57) {
                proof {
                    assert(!is_digit(frac_part[k - dot - 1]));
                    assert(!all_digits(frac_part));
                }
                return None;
            }
            if c < 3 {
                proof {
                    assert(frac_part[c as int] == b);
                    lemma_digits_val_step(frac_part, c as int);
                }
                f = f * 10 + (b - 48) as i64;
                c += 1;
            }
            k += 1;
        }
    }
    let f3: i64 = if c == 0 {
        0
    } else if c == 1 {
        f * 100
    } else if c == 2 {
        f * 10
    } else {
        f
    };
    proof {
        assert(all_digits(int_part));
        assert(all_digits(frac_part));
        assert(int_part.len() + frac_part.len() >= 1);
        if c >= 3 {
            assert(frac_part.take(c as int) =~= frac_part.take(3));
        } else {
            assert(frac_part.take(c as int) =~= frac_part);
        }
        if frac_part.len() == 1 {
            assert(frac_part.take(1).drop_last() =~= Seq::<u8>::empty());
            assert(frac_part.take(1).last() == frac_part[0]);
            assert(f == frac_part[0] - 48);
        }
        if frac_part.len() == 2 {
            assert(frac_part.take(2) =~= frac_part);
        }
        assert(f3 == frac_milli(frac_part));
    }
    let m = acc * 1000 + f3;
    if neg {
        Some(-m)
    } else {
        Some(m)
    }
}

} // verus!
