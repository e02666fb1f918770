//! Text as bytes: comparisons of UTF-8 encoded strings, and the few string
//! functions of the standard library that the policy code relies on.

use vstd::prelude::*;
use vstd::utf8::{decode_utf8, valid_utf8};
use crate::frame::copy_range;

verus! {

/// Whether `a` begins with `prefix`.
pub open spec fn spec_starts_with(a: Seq<u8>, prefix: Seq<u8>) -> bool {
    prefix.len() <= a.len() && a.subrange(0, prefix.len() as int) == prefix
}

/// Whether `a` ends with `suffix`.
pub open spec fn spec_ends_with(a: Seq<u8>, suffix: Seq<u8>) -> bool {
    suffix.len() <= a.len() && a.subrange(a.len() - suffix.len(), a.len() as int) == suffix
}

/// Whether `a[from..]` begins with `b`.
pub fn matches_at(a: &[u8], from: usize, b: &[u8]) -> (r: bool)
    requires
        from + b@.len() <= a@.len(),
    ensures
        r == (a@.subrange(from as int, from + b@.len()) == b@),
{
    let a_len: usize = a.len();
    let mut k: usize = 0;
    while k < b.len()
        invariant
            0 <= k <= b@.len(),
            a_len == a@.len(),
            from + b@.len() <= a@.len(),
            forall|j: int| 0 <= j < k ==> a@[from + j] == b@[j],
        decreases b@.len() - k,
    {
        if a[from + k] != b[k] {
            proof {
                assert(a@.subrange(from as int, from + b@.len())[k as int] == a@[from + k]);
            }
            return false;
        }
        k += 1;
    }
    proof {
        assert(a@.subrange(from as int, from + b@.len()) =~= b@);
    }
    true
}

/// Whether `a` and `b` hold the same bytes.
pub fn bytes_eq(a: &[u8], b: &[u8]) -> (r: bool)
    ensures
        r == (a@ == b@),
{
    if a.len() != b.len() {
        return false;
    }
    let r = matches_at(a, 0, b);
    proof {
        assert(a@.subrange(0, b@.len() as int) =~= a@);
    }
    r
}

/// Whether `a` begins with `prefix`.
pub fn starts_with(a: &[u8], prefix: &[u8]) -> (r: bool)
    ensures
        r == spec_starts_with(a@, prefix@),
{
    if prefix.len() > a.len() {
        return false;
    }
    matches_at(a, 0, prefix)
}

/// Whether `a` ends with `suffix`.
pub fn ends_with(a: &[u8], suffix: &[u8]) -> (r: bool)
    ensures
        r == spec_ends_with(a@, suffix@),
{
    if suffix.len() > a.len() {
        return false;
    }
    matches_at(a, a.len() - suffix.len(), suffix)
}

/// The first position of the byte `b` in `t`; the length of `t` if `b` does
/// not occur.
pub open spec fn spec_index_of(t: Seq<u8>, b: u8) -> int
    decreases t.len(),
{
    if t.len() == 0 {
        0
    } else if t[0] == b {
        0
    } else {
        1 + spec_index_of(t.skip(1), b)
    }
}

/// The first position of `b` is a position of `b`, or the length, and no
/// earlier position holds `b`.
pub proof fn lemma_index_of(t: Seq<u8>, b: u8)
    ensures
        0 <= spec_index_of(t, b) <= t.len(),
        spec_index_of(t, b) < t.len() ==> t[spec_index_of(t, b)] == b,
        forall|j: int| 0 <= j < spec_index_of(t, b) ==> t[j] != b,
    decreases t.len(),
{
    if t.len() > 0 && t[0] != b {
        lemma_index_of(t.skip(1), b);
        assert forall|j: int| 0 <= j < spec_index_of(t, b) implies t[j] != b by {
            if j > 0 {
                assert(t.skip(1)[j - 1] == t[j]);
            }
        }
    }
}

/// The first position reached by a search is the first position.
pub proof fn lemma_index_of_is(t: Seq<u8>, b: u8, at: int)
    requires
        0 <= at <= t.len(),
        at < t.len() ==> t[at] == b,
        forall|j: int| 0 <= j < at ==> t[j] != b,
    ensures
        spec_index_of(t, b) == at,
{
    lemma_index_of(t, b);
    let found = spec_index_of(t, b);
    if found < at {
        assert(t[found] != b);
    } else if found > at {
        assert(t[at] != b);
    }
}

/// The first position of the byte `b` in `t[from..]`, counted from `from`;
/// the length of what is left if `b` does not occur.
pub fn index_of(t: &[u8], from: usize, b: u8) -> (at: usize)
    requires
        from <= t@.len(),
    ensures
        at == spec_index_of(t@.skip(from as int), b),
        from + at <= t@.len(),
{
    let n: usize = t.len();
    let mut i: usize = from;
    while i < n && t[i] != b
        invariant
            from <= i <= n,
            n == t@.len(),
            forall|j: int| from <= j < i ==> t@[j] != b,
        decreases n - i,
    {
        i += 1;
    }
    proof {
        let rest = t@.skip(from as int);
        assert forall|j: int| 0 <= j < i - from implies rest[j] != b by {
            assert(rest[j] == t@[from + j]);
        }
        lemma_index_of_is(rest, b, i - from);
    }
    i - from
}

/// A line without the carriage return at its end, if it has one.
pub open spec fn spec_strip_cr(line: Seq<u8>) -> Seq<u8> {
    if line.len() > 0 && line.last() == 13u8 {
        line.drop_last()
    } else {
        line
    }
}

/// The lines of a text: the pieces between line feeds, each without the
/// carriage return in front of its line feed. A line feed at the very end
/// starts no further line.
pub open spec fn spec_lines(t: Seq<u8>) -> Seq<Seq<u8>>
    decreases t.len(),
{
    if t.len() == 0 {
        Seq::<Seq<u8>>::empty()
    } else {
        let at = spec_index_of(t, 10u8);
        if 0 <= at < t.len() {
            seq![spec_strip_cr(t.take(at))] + spec_lines(t.skip(at + 1))
        } else {
            seq![t]
        }
    }
}

/// The bytes of each element of a list of byte strings.
pub open spec fn spec_byte_strings(v: Seq<Vec<u8>>) -> Seq<Seq<u8>> {
    Seq::new(v.len(), |i: int| v[i]@)
}

/// The lines of a text.
pub fn lines(text: &[u8]) -> (out: Vec<Vec<u8>>)
    ensures
        spec_byte_strings(out@) == spec_lines(text@),
{
    let n: usize = text.len();
    let mut out: Vec<Vec<u8>> = Vec::new();
    let mut pos: usize = 0;
    proof {
        assert(text@.skip(0) =~= text@);
        assert(spec_byte_strings(out@) + spec_lines(text@) =~= spec_lines(text@));
    }
    while pos < n
        invariant
            0 <= pos <= n,
            n == text@.len(),
            spec_lines(text@) == spec_byte_strings(out@) + spec_lines(text@.skip(pos as int)),
        decreases n - pos,
    {
        let ghost rest = text@.skip(pos as int);
        let ghost before = out@;
        let at: usize = index_of(text, pos, 10);
        proof {
            lemma_index_of(rest, 10u8);
        }
        if pos + at < n {
            let mut end: usize = pos + at;
            if at > 0 && text[end - 1] == 13 {
                end = end - 1;
            }
            let line = copy_range(text, pos, end);
            out.push(line);
            proof {
                assert(rest.take(at as int) =~= text@.subrange(pos as int, pos + at));
                assert(line@ =~= spec_strip_cr(rest.take(at as int)));
                assert(rest.skip(at + 1) =~= text@.skip(pos + at + 1));
                assert(spec_byte_strings(out@) =~= spec_byte_strings(before).push(line@));
                assert(spec_byte_strings(before) + (seq![line@] + spec_lines(rest.skip(at + 1)))
                    =~= spec_byte_strings(out@) + spec_lines(text@.skip(pos + at + 1)));
            }
            pos = pos + at + 1;
        } else {
            let line = copy_range(text, pos, n);
            out.push(line);
            proof {
                assert(line@ =~= rest);
                assert(text@.skip(n as int) =~= Seq::<u8>::empty());
                assert(spec_byte_strings(out@) =~= spec_byte_strings(before).push(line@));
                assert(spec_byte_strings(before) + seq![rest] =~= spec_byte_strings(out@)
                    + spec_lines(text@.skip(n as int)));
            }
            pos = n;
        }
    }
    proof {
        assert(text@.skip(n as int) =~= Seq::<u8>::empty());
        assert(spec_byte_strings(out@) + Seq::<Seq<u8>>::empty() =~= spec_byte_strings(out@));
    }
    out
}

/// The decimal digits of a number, as bytes.
pub open spec fn spec_decimal(n: nat) -> Seq<u8>
    decreases n,
{
    if n < 10 {
        seq![(48 + n) as u8]
    } else {
        spec_decimal(n / 10).push((48 + n % 10) as u8)
    }
}

/// Appends the decimal digits of `n` to `out`.
pub fn push_decimal(out: &mut Vec<u8>, n: u64)
    ensures
        final(out)@ == old(out)@ + spec_decimal(n as nat),
    decreases n,
{
    if n < 10 {
        out.push((48 + n) as u8);
        assert(out@ =~= old(out)@ + spec_decimal(n as nat));
    } else {
        push_decimal(out, n / 10);
        out.push((48 + n % 10) as u8);
        assert(out@ =~= old(out)@ + spec_decimal(n as nat));
    }
}

/// The decimal digits of a number are bytes below 128.
pub proof fn lemma_decimal_is_ascii(n: nat)
    ensures
        forall|i: int| 0 <= i < spec_decimal(n).len() ==> #[trigger] spec_decimal(n)[i] < 128,
    decreases n,
{
    if n >= 10 {
        lemma_decimal_is_ascii(n / 10);
        let head = spec_decimal(n / 10);
        assert forall|i: int| 0 <= i < spec_decimal(n).len() implies #[trigger] spec_decimal(
            n,
        )[i] < 128 by {
            if i < head.len() {
                assert(spec_decimal(n)[i] == head[i]);
            }
        }
    }
}

/// Bytes below 128 are valid UTF-8.
pub proof fn lemma_ascii_is_utf8(b: Seq<u8>)
    requires
        forall|i: int| 0 <= i < b.len() ==> #[trigger] b[i] < 128,
    ensures
        valid_utf8(b),
{
    let chars = Seq::new(b.len(), |i: int| b[i] as char);
    assert(vstd::utf8::is_ascii_chars(chars));
    vstd::utf8::is_ascii_chars_encode_utf8(chars);
    assert(vstd::utf8::encode_utf8(chars) =~= b);
    vstd::utf8::encode_utf8_valid_utf8(chars);
}

/// A valid UTF-8 text cut at a byte below 128 leaves valid UTF-8 on both
/// sides of that byte.
pub proof fn lemma_split_at_ascii(bytes: Seq<u8>, at: int)
    requires
        valid_utf8(bytes),
        0 <= at < bytes.len(),
        bytes[at] < 128,
    ensures
        valid_utf8(bytes.take(at)),
        valid_utf8(bytes.skip(at + 1)),
{
    let b = bytes[at];
    assert(!vstd::utf8::is_continuation_byte(b)) by (bit_vector)
        requires
            b < 128,
    ;
    vstd::utf8::is_char_boundary_iff_not_is_continuation_byte(bytes, at);
    vstd::utf8::valid_utf8_split(bytes, at);
    assert(bytes.subrange(0, at) =~= bytes.take(at));
    let tail = bytes.subrange(at, bytes.len() as int);
    assert(tail[0] == b);
    assert(vstd::utf8::is_leading_byte_width_1(b)) by (bit_vector)
        requires
            b < 128,
    ;
    assert(vstd::utf8::length_of_first_scalar(tail) == 1);
    assert(vstd::utf8::pop_first_scalar(tail) =~= bytes.skip(at + 1));
}

/// What `str::trim` of the standard library makes of a string: the string
/// without the white space, in the sense of Unicode, at its two ends.
pub uninterp spec fn spec_trim(s: Seq<char>) -> Seq<char>;

/// What `str::to_lowercase` of the standard library makes of a string: its
/// lower-case form in the sense of Unicode.
pub uninterp spec fn spec_to_lowercase(s: Seq<char>) -> Seq<char>;

/// A piece of valid UTF-8 without the white space at its ends.
pub open spec fn spec_trim_bytes(piece: Seq<u8>) -> Seq<u8>
    recommends
        valid_utf8(piece),
{
    vstd::utf8::encode_utf8(spec_trim(decode_utf8(piece)))
}

/// A piece of valid UTF-8 without the white space at its ends and in lower
/// case.
pub open spec fn spec_name_bytes(piece: Seq<u8>) -> Seq<u8>
    recommends
        valid_utf8(piece),
{
    vstd::utf8::encode_utf8(spec_to_lowercase(spec_trim(decode_utf8(piece))))
}

/// `str::trim` of the standard library, with the slice it returns copied
/// into a `String`. The result depends on the characters of `s` alone and
/// is known by its name only.
#[verifier::external_body]
pub(crate) fn str_trim(s: &str) -> (r: String)
    ensures
        r@ == spec_trim(s@),
{
    s.trim().to_string()
}

/// `str::to_lowercase` of the standard library. The result depends on the
/// characters of `s` alone and is known by its name only.
#[verifier::external_body]
pub(crate) fn str_to_lowercase(s: &str) -> (r: String)
    ensures
        r@ == spec_to_lowercase(s@),
{
    s.to_lowercase()
}

/// `String::from_utf8` of the standard library: the bytes become a string
/// exactly when they are valid UTF-8, and the string is then what the bytes
/// decode to.
#[verifier::external_body]
pub(crate) fn string_from_utf8(bytes: Vec<u8>) -> (r: Option<String>)
    ensures
        r is Some <==> valid_utf8(bytes@),
        r is Some ==> r->Some_0@ == decode_utf8(bytes@),
{
    String::from_utf8(bytes).ok()
}

/// The offset basis of the 64-bit FNV-1a hash.
pub const FNV_OFFSET: u64 = 0xcbf29ce484222325;

/// The prime of the 64-bit FNV-1a hash.
pub const FNV_PRIME: u64 = 0x100000001b3;

/// The 64-bit FNV-1a hash of a text: from the offset basis, each byte is
/// combined by exclusive or and the result multiplied by the prime, modulo
/// 2 to the 64.
pub open spec fn spec_fnv1a_64(bytes: Seq<u8>) -> u64
    decreases bytes.len(),
{
    if bytes.len() == 0 {
        FNV_OFFSET
    } else {
        (spec_fnv1a_64(bytes.drop_last()) ^ (bytes.last() as u64)).wrapping_mul(FNV_PRIME)
    }
}

/// The 64-bit FNV-1a hash of `bytes`.
pub fn fnv1a_64(bytes: &[u8]) -> (hash: u64)
    ensures
        hash == spec_fnv1a_64(bytes@),
{
    let mut hash: u64 = FNV_OFFSET;
    let mut i: usize = 0;
    proof {
        assert(bytes@.take(0) =~= Seq::<u8>::empty());
    }
    while i < bytes.len()
        invariant
            0 <= i <= bytes@.len(),
            hash == spec_fnv1a_64(bytes@.take(i as int)),
        decreases bytes@.len() - i,
    {
        let ghost upto = bytes@.take(i as int + 1);
        proof {
            assert(upto.drop_last() =~= bytes@.take(i as int));
            assert(upto.last() == bytes@[i as int]);
        }
        hash = (hash ^ (bytes[i] as u64)).wrapping_mul(FNV_PRIME);
        i += 1;
    }
    proof {
        assert(bytes@.take(i as int) =~= bytes@);
    }
    hash
}

/// Every line of a valid UTF-8 text is valid UTF-8.
pub proof fn lemma_lines_valid(t: Seq<u8>)
    requires
        valid_utf8(t),
    ensures
        forall|i: int| 0 <= i < spec_lines(t).len() ==> valid_utf8(#[trigger] spec_lines(t)[i]),
    decreases t.len(),
{
    if t.len() > 0 {
        lemma_index_of(t, 10u8);
        let at = spec_index_of(t, 10u8);
        if at < t.len() {
            lemma_split_at_ascii(t, at);
            let head = t.take(at);
            if head.len() > 0 && head.last() == 13u8 {
                lemma_split_at_ascii(head, head.len() - 1);
                assert(head.take(head.len() - 1) =~= head.drop_last());
            }
            let rest = t.skip(at + 1);
            lemma_lines_valid(rest);
            let all = spec_lines(t);
            assert forall|i: int| 0 <= i < all.len() implies valid_utf8(#[trigger] all[i]) by {
                if i > 0 {
                    assert(all[i] == spec_lines(rest)[i - 1]);
                }
            }
        }
    }
}

/// A text of valid UTF-8, turned into a string.
pub fn string_of_utf8(bytes: Vec<u8>) -> (s: String)
    requires
        valid_utf8(bytes@),
    ensures
        s@ == decode_utf8(bytes@),
        vstd::utf8::encode_utf8(s@) == bytes@,
{
    broadcast use vstd::utf8::decode_utf8_encode_utf8;

    match string_from_utf8(bytes) {
        Some(s) => s,
        None => String::new(),
    }
}

} // verus!
