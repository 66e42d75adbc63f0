//! Text handling: how captured bytes become characters, and what trimming means.

use vstd::prelude::*;

verus! {

/// Whether `c` has the Unicode `White_Space` property.
pub open spec fn is_whitespace(c: char) -> bool {
    let n = c as u32;
    ||| 0x09 <= n <= 0x0D
    ||| n == 0x20
    ||| n == 0x85
    ||| n == 0xA0
    ||| n == 0x1680
    ||| 0x2000 <= n <= 0x200A
    ||| n == 0x2028
    ||| n == 0x2029
    ||| n == 0x202F
    ||| n == 0x205F
    ||| n == 0x3000
}

/// The text that captured bytes stand for: each byte is the character with
/// the same code point.
pub open spec fn decode(bytes: Seq<u8>) -> Seq<char> {
    Seq::new(bytes.len(), |i: int| bytes[i] as char)
}

/// `s` without its leading whitespace.
pub open spec fn trim_start(s: Seq<char>) -> Seq<char>
    decreases s.len(),
{
    if s.len() > 0 && is_whitespace(s.first()) {
        trim_start(s.drop_first())
    } else {
        s
    }
}

/// `s` without its trailing whitespace.
pub open spec fn trim_end(s: Seq<char>) -> Seq<char>
    decreases s.len(),
{
    if s.len() > 0 && is_whitespace(s.last()) {
        trim_end(s.drop_last())
    } else {
        s
    }
}

/// `s` without the whitespace that surrounds it.
pub open spec fn trim(s: Seq<char>) -> Seq<char> {
    trim_end(trim_start(s))
}

/// Whether every character of `s` is whitespace.
pub open spec fn all_whitespace(s: Seq<char>) -> bool {
    forall|i: int| 0 <= i < s.len() ==> is_whitespace(#[trigger] s[i])
}

/// Cutting a whitespace prefix of `k` characters, after which a character
/// that is not whitespace or nothing follows, is `trim_start`.
pub proof fn lemma_trim_start_is_skip(s: Seq<char>, k: int)
    requires
        0 <= k <= s.len(),
        all_whitespace(s.take(k)),
        k < s.len() ==> !is_whitespace(s[k]),
    ensures
        trim_start(s) == s.skip(k),
    decreases k,
{
    if k == 0 {
        assert(s.skip(0) =~= s);
    } else {
        assert(s.take(k)[0] == s[0]);
        let rest = s.drop_first();
        assert forall|i: int| 0 <= i < rest.take(k - 1).len() implies is_whitespace(
            #[trigger] rest.take(k - 1)[i],
        ) by {
            assert(rest.take(k - 1)[i] == s.take(k)[i + 1]);
        }
        lemma_trim_start_is_skip(rest, k - 1);
        assert(rest.skip(k - 1) =~= s.skip(k));
    }
}

/// Cutting a whitespace suffix that starts at `k`, before which a character
/// that is not whitespace or nothing stands, is `trim_end`.
pub proof fn lemma_trim_end_is_take(s: Seq<char>, k: int)
    requires
        0 <= k <= s.len(),
        all_whitespace(s.skip(k)),
        k > 0 ==> !is_whitespace(s[k - 1]),
    ensures
        trim_end(s) == s.take(k),
    decreases s.len() - k,
{
    if k == s.len() {
        assert(s.take(k) =~= s);
    } else {
        assert(s.skip(k)[s.len() - k - 1] == s.last());
        let rest = s.drop_last();
        assert forall|i: int| 0 <= i < rest.skip(k).len() implies is_whitespace(
            #[trigger] rest.skip(k)[i],
        ) by {
            assert(rest.skip(k)[i] == s.skip(k)[i]);
        }
        lemma_trim_end_is_take(rest, k);
        assert(rest.take(k) =~= s.take(k));
    }
}

/// The number of whitespace characters that `s` begins with.
pub open spec fn leading_whitespace(s: Seq<char>) -> int {
    s.len() - trim_start(s).len()
}

/// What trimming leaves is the stretch of `s` behind its leading whitespace,
/// and it has whitespace on neither end.
pub proof fn lemma_trim_shape(s: Seq<char>)
    ensures
        0 <= leading_whitespace(s) <= leading_whitespace(s) + trim(s).len() <= s.len(),
        trim(s) == s.subrange(leading_whitespace(s), leading_whitespace(s) + trim(s).len()),
        trim(s).len() > 0 ==> !is_whitespace(trim(s).first()) && !is_whitespace(trim(s).last()),
{
    lemma_trim_start_shape(s);
    let m = trim_start(s);
    lemma_trim_end_shape(m);
    let a = leading_whitespace(s);
    let t = trim(s);
    assert(m == s.skip(a));
    assert(t == m.take(t.len() as int));
    assert(t =~= s.subrange(a, a + t.len()));
    if t.len() > 0 {
        assert(t.first() == m.first());
    }
}

/// `trim_start` leaves an end of `s` that does not begin with whitespace.
pub proof fn lemma_trim_start_shape(s: Seq<char>)
    ensures
        trim_start(s).len() <= s.len(),
        trim_start(s) == s.skip(s.len() - trim_start(s).len()),
        trim_start(s).len() > 0 ==> !is_whitespace(trim_start(s).first()),
    decreases s.len(),
{
    if s.len() > 0 && is_whitespace(s.first()) {
        let rest = s.drop_first();
        lemma_trim_start_shape(rest);
        assert(rest.skip(rest.len() - trim_start(rest).len()) =~= s.skip(
            s.len() - trim_start(s).len(),
        ));
    } else {
        assert(s.skip(0) =~= s);
    }
}

/// `trim_end` leaves a beginning of `s` that does not end with whitespace.
pub proof fn lemma_trim_end_shape(s: Seq<char>)
    ensures
        trim_end(s).len() <= s.len(),
        trim_end(s) == s.take(trim_end(s).len() as int),
        trim_end(s).len() > 0 ==> !is_whitespace(trim_end(s).last()),
    decreases s.len(),
{
    if s.len() > 0 && is_whitespace(s.last()) {
        let rest = s.drop_last();
        lemma_trim_end_shape(rest);
        assert(rest.take(trim_end(rest).len() as int) =~= s.take(trim_end(s).len() as int));
    } else {
        assert(s.take(s.len() as int) =~= s);
    }
}

/// Whether the character that `b` decodes to is whitespace.
pub fn is_space(b: u8) -> (r: bool)
    ensures
        r == is_whitespace(b as char),
{
    (9 <= b && b <= 13) || b == 0x20 || b == 0x85 || b == 0xA0
}

/// Appends one character to a string. This is `String::push` of the standard
/// library, taken on trust: afterwards the string holds what it held before,
/// followed by `c`.
#[verifier::external_body]
fn push_char(s: &mut String, c: char)
    ensures
        final(s)@ == old(s)@.push(c),
{
    s.push(c);
}

/// Finds the part of `bytes[start..end]` that is left when the whitespace
/// around it is cut.
pub fn trim_bounds(bytes: &[u8], start: usize, end: usize) -> (r: (usize, usize))
    requires
        start <= end <= bytes@.len(),
    ensures
        start <= r.0 <= r.1 <= end,
        r.0 == start + leading_whitespace(decode(bytes@.subrange(start as int, end as int))),
        r.1 == r.0 + trim(decode(bytes@.subrange(start as int, end as int))).len(),
        decode(bytes@.subrange(r.0 as int, r.1 as int)) == trim(
            decode(bytes@.subrange(start as int, end as int)),
        ),
{
    let ghost line = decode(bytes@.subrange(start as int, end as int));
    let mut lo: usize = start;
    while lo < end && is_space(bytes[lo])
        invariant
            start <= lo <= end <= bytes@.len(),
            line == decode(bytes@.subrange(start as int, end as int)),
            all_whitespace(line.take(lo - start)),
        decreases end - lo,
    {
        proof {
            let k = lo - start;
            assert(line[k] == bytes@[lo as int] as char);
            assert forall|i: int| 0 <= i < line.take(k + 1).len() implies is_whitespace(
                #[trigger] line.take(k + 1)[i],
            ) by {
                if i < k {
                    assert(line.take(k + 1)[i] == line.take(k)[i]);
                }
            }
        }
        lo += 1;
    }
    let ghost rest = line.skip(lo - start);
    proof {
        if lo < end {
            assert(line[lo - start] == bytes@[lo as int] as char);
        }
        lemma_trim_start_is_skip(line, lo - start);
    }
    let mut hi: usize = end;
    while hi > lo && is_space(bytes[hi - 1])
        invariant
            start <= lo <= hi <= end <= bytes@.len(),
            line == decode(bytes@.subrange(start as int, end as int)),
            rest == line.skip(lo - start),
            all_whitespace(rest.skip(hi - lo)),
        decreases hi - lo,
    {
        proof {
            let k = hi - lo;
            assert(rest[k - 1] == bytes@[hi - 1] as char);
            assert forall|i: int| 0 <= i < rest.skip(k - 1).len() implies is_whitespace(
                #[trigger] rest.skip(k - 1)[i],
            ) by {
                if i > 0 {
                    assert(rest.skip(k - 1)[i] == rest.skip(k)[i - 1]);
                }
            }
        }
        hi -= 1;
    }
    proof {
        if hi > lo {
            assert(rest[hi - lo - 1] == bytes@[hi - 1] as char);
        }
        lemma_trim_end_is_take(rest, hi - lo);
        assert(rest.take(hi - lo) =~= decode(bytes@.subrange(lo as int, hi as int)));
    }
    (lo, hi)
}

/// Decodes `bytes[start..end]` into a string.
pub fn decode_range(bytes: &[u8], start: usize, end: usize) -> (s: String)
    requires
        start <= end <= bytes@.len(),
    ensures
        s@ == decode(bytes@.subrange(start as int, end as int)),
{
    let mut s = String::new();
    let mut i: usize = start;
    while i < end
        invariant
            start <= i <= end <= bytes@.len(),
            s@ == decode(bytes@.subrange(start as int, i as int)),
        decreases end - i,
    {
        push_char(&mut s, bytes[i] as char);
        i += 1;
        assert(s@ =~= decode(bytes@.subrange(start as int, i as int)));
    }
    s
}

/// Decodes captured bytes into a string.
pub fn decode_text(bytes: &[u8]) -> (s: String)
    ensures
        s@ == decode(bytes@),
{
    assert(bytes@.subrange(0, bytes@.len() as int) =~= bytes@);
    decode_range(bytes, 0, bytes.len())
}

} // verus!
