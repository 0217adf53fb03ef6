//! Byte-level primitives shared by the record and container codecs.
//!
//! The format is little-endian throughout. Every "length-prefixed" field is a
//! 4-byte unsigned length followed by that many raw bytes. Markers are literal
//! byte strings located by scanning for their first occurrence.
//!
//! Each decoding step has a specification-level counterpart (`sp_*`) over
//! `Seq<u8>` and an absolute position; the executable readers are proved to
//! return exactly what the specification says, on success and on failure.

use vstd::bytes::*;
use vstd::prelude::*;
use vstd::slice::{slice_subrange, slice_to_vec};
use vstd::utf8::{decode_utf8, decode_utf8_encode_utf8, encode_utf8, valid_utf8};

use crate::DecodeError;

verus! {

/// True when `pat` occurs in `input` starting exactly at `pos`.
pub open spec fn matches_at(input: Seq<u8>, pat: Seq<u8>, pos: int) -> bool {
    &&& 0 <= pos
    &&& pos + pat.len() <= input.len()
    &&& input.subrange(pos, pos + pat.len()) == pat
}

/// Position of the first occurrence of `pat` in `input` at or after `pos`.
pub open spec fn spec_find(input: Seq<u8>, pat: Seq<u8>, pos: int) -> Option<int>
    decreases input.len() - pos + 1,
{
    if pos + pat.len() > input.len() {
        None
    } else if matches_at(input, pat, pos) {
        Some(pos)
    } else {
        spec_find(input, pat, pos + 1)
    }
}

/// What `spec_find` returns is the first match: a found position carries a
/// match and nothing before it matches; `None` means nothing matches at all.
pub proof fn lemma_find_characterisation(input: Seq<u8>, pat: Seq<u8>, pos: int)
    ensures
        match spec_find(input, pat, pos) {
            Some(j) => pos <= j && matches_at(input, pat, j) && forall|k: int|
                pos <= k < j ==> !matches_at(input, pat, k),
            None => forall|k: int| pos <= k ==> !matches_at(input, pat, k),
        },
    decreases input.len() - pos + 1,
{
    if pos + pat.len() > input.len() {
    } else if matches_at(input, pat, pos) {
    } else {
        lemma_find_characterisation(input, pat, pos + 1);
    }
}

/// Take exactly `n` bytes at `pos`.
pub open spec fn sp_take(input: Seq<u8>, pos: int, n: int) -> Result<(Seq<u8>, int), DecodeError> {
    if 0 <= pos && 0 <= n && pos + n <= input.len() {
        Ok((input.subrange(pos, pos + n), pos + n))
    } else {
        Err(DecodeError::TruncatedInput)
    }
}

/// Read a 4-byte little-endian unsigned integer at `pos`.
pub open spec fn sp_u32(input: Seq<u8>, pos: int) -> Result<(u32, int), DecodeError> {
    match sp_take(input, pos, 4) {
        Ok((b, p)) => Ok((spec_u32_from_le_bytes(b), p)),
        Err(e) => Err(e),
    }
}

/// Read a length-prefixed byte span at `pos`.
pub open spec fn sp_length_data(input: Seq<u8>, pos: int) -> Result<(Seq<u8>, int), DecodeError> {
    match sp_u32(input, pos) {
        Ok((n, p)) => sp_take(input, p, n as int),
        Err(e) => Err(e),
    }
}

/// Read a length-prefixed UTF-8 string at `pos`; invalid UTF-8 is an
/// `InvalidEncoding` fault.
pub open spec fn sp_string(input: Seq<u8>, pos: int) -> Result<(Seq<char>, int), DecodeError> {
    match sp_length_data(input, pos) {
        Ok((b, p)) => if valid_utf8(b) {
            Ok((decode_utf8(b), p))
        } else {
            Err(DecodeError::InvalidEncoding)
        },
        Err(e) => Err(e),
    }
}

/// Consume the literal `pat` at `pos`.
pub open spec fn sp_tag(input: Seq<u8>, pat: Seq<u8>, pos: int) -> Result<int, DecodeError> {
    if matches_at(input, pat, pos) {
        Ok(pos + pat.len())
    } else {
        Err(DecodeError::MarkerNotFound)
    }
}

/// Scan forward from `pos` for the first occurrence of `pat`; yield the bytes
/// before it and the position just past it.
pub open spec fn sp_scan_past(input: Seq<u8>, pat: Seq<u8>, pos: int) -> Result<
    (Seq<u8>, int),
    DecodeError,
> {
    match spec_find(input, pat, pos) {
        Some(j) => Ok((input.subrange(pos, j), j + pat.len())),
        None => Err(DecodeError::MarkerNotFound),
    }
}

/// Scan forward from `pos` for the first occurrence of `pat`; yield the bytes
/// before it and the position of the occurrence itself, which is not
/// consumed.
pub open spec fn sp_scan_to(input: Seq<u8>, pat: Seq<u8>, pos: int) -> Result<
    (Seq<u8>, int),
    DecodeError,
> {
    match spec_find(input, pat, pos) {
        Some(j) => Ok((input.subrange(pos, j), j)),
        None => Err(DecodeError::MarkerNotFound),
    }
}

/// A length-prefixed span as emitted by the encoders: 4-byte little-endian
/// byte count, then the bytes.
pub open spec fn spec_length_prefixed(b: Seq<u8>) -> Seq<u8>
    recommends
        b.len() <= u32::MAX,
{
    spec_u32_to_le_bytes(b.len() as u32) + b
}

/// Two adjacent subranges concatenate to the enclosing subrange.
pub proof fn lemma_subrange_glue(s: Seq<u8>, a: int, b: int, c: int)
    requires
        0 <= a <= b <= c <= s.len(),
    ensures
        s.subrange(a, b) + s.subrange(b, c) == s.subrange(a, c),
{
    assert(s.subrange(a, b) + s.subrange(b, c) =~= s.subrange(a, c));
}

/// A decoded 4-byte integer re-encodes to exactly the bytes it came from.
pub proof fn lemma_u32_segment(input: Seq<u8>, pos: int)
    requires
        sp_u32(input, pos) is Ok,
    ensures
        ({
            let (x, p) = sp_u32(input, pos)->Ok_0;
            &&& 0 <= pos
            &&& p == pos + 4
            &&& p <= input.len()
            &&& spec_u32_to_le_bytes(x) == input.subrange(pos, p)
        }),
{
    lemma_auto_spec_u32_to_from_le_bytes();
}

/// A decoded length-prefixed span re-encodes to exactly the bytes it came
/// from: the stored length round-trips and the payload is copied verbatim.
pub proof fn lemma_length_data_segment(input: Seq<u8>, pos: int)
    requires
        sp_length_data(input, pos) is Ok,
    ensures
        ({
            let (b, p) = sp_length_data(input, pos)->Ok_0;
            &&& 0 <= pos
            &&& pos + 4 <= p <= input.len()
            &&& b.len() <= u32::MAX
            &&& b.len() == p - pos - 4
            &&& spec_length_prefixed(b) == input.subrange(pos, p)
        }),
{
    lemma_auto_spec_u32_to_from_le_bytes();
    let (n, q) = sp_u32(input, pos)->Ok_0;
    let (b, p) = sp_length_data(input, pos)->Ok_0;
    assert(spec_u32_to_le_bytes(n) == input.subrange(pos, q));
    assert(b.len() as u32 == n);
    lemma_subrange_glue(input, pos, q, p);
}

/// A decoded length-prefixed UTF-8 string re-encodes to exactly the bytes it
/// came from.
pub proof fn lemma_string_segment(input: Seq<u8>, pos: int)
    requires
        sp_string(input, pos) is Ok,
    ensures
        ({
            let (cs, p) = sp_string(input, pos)->Ok_0;
            &&& 0 <= pos
            &&& pos + 4 <= p <= input.len()
            &&& encode_utf8(cs).len() <= u32::MAX
            &&& spec_length_prefixed(encode_utf8(cs)) == input.subrange(pos, p)
        }),
{
    let (b, p) = sp_length_data(input, pos)->Ok_0;
    decode_utf8_encode_utf8(b);
    lemma_length_data_segment(input, pos);
}

/// The span before a scanned-for, unconsumed marker is exactly the bytes
/// between the scan start and the marker, and the marker sits at the
/// resulting position.
pub proof fn lemma_scan_to_segment(input: Seq<u8>, pat: Seq<u8>, pos: int)
    requires
        0 <= pos,
        sp_scan_to(input, pat, pos) is Ok,
    ensures
        ({
            let (b, p) = sp_scan_to(input, pat, pos)->Ok_0;
            &&& pos <= p
            &&& p + pat.len() <= input.len()
            &&& b == input.subrange(pos, p)
            &&& matches_at(input, pat, p)
            &&& forall|k: int| pos <= k < p ==> !matches_at(input, pat, k)
        }),
{
    lemma_find_characterisation(input, pat, pos);
}

/// The span before a scanned-for marker, followed by the marker itself,
/// re-encodes to exactly the bytes they came from.
pub proof fn lemma_scan_past_segment(input: Seq<u8>, pat: Seq<u8>, pos: int)
    requires
        0 <= pos,
        sp_scan_past(input, pat, pos) is Ok,
    ensures
        ({
            let (b, p) = sp_scan_past(input, pat, pos)->Ok_0;
            &&& pos + pat.len() <= p <= input.len()
            &&& b.len() == p - pos - pat.len()
            &&& b + pat == input.subrange(pos, p)
            &&& forall|k: int| pos <= k < p - pat.len() ==> !matches_at(input, pat, k)
        }),
{
    lemma_find_characterisation(input, pat, pos);
    let j = spec_find(input, pat, pos)->Some_0;
    lemma_subrange_glue(input, pos, j, j + pat.len() as int);
}

/// True exactly when the two byte slices hold the same bytes.
pub fn bytes_eq(a: &[u8], b: &[u8]) -> (r: bool)
    ensures
        r == (a@ == b@),
{
    let n = a.len();
    let m = b.len();
    if n != m {
        return false;
    }
    let mut i: usize = 0;
    while i < n
        invariant
            n == a@.len(),
            n == b@.len(),
            i <= n,
            forall|k: int| 0 <= k < i ==> a@[k] == b@[k],
        decreases n - i,
    {
        if a[i] != b[i] {
            return false;
        }
        i += 1;
    }
    proof {
        assert(a@ =~= b@);
    }
    true
}

/// True exactly when `pat` occurs in `input` starting at `pos`.
pub fn tag_at(input: &[u8], pat: &[u8], pos: usize) -> (r: bool)
    ensures
        r == matches_at(input@, pat@, pos as int),
{
    let n = input.len();
    let m = pat.len();
    if m > n || pos > n - m {
        return false;
    }
    let mut i: usize = 0;
    while i < m
        invariant
            n == input@.len(),
            m == pat@.len(),
            pos + m <= n,
            i <= m,
            forall|k: int| 0 <= k < i ==> input@[pos + k] == pat@[k],
        decreases m - i,
    {
        if input[pos + i] != pat[i] {
            proof {
                if matches_at(input@, pat@, pos as int) {
                    assert(input@.subrange(pos as int, pos + pat@.len())[i as int] == pat@[
                        i as int
                    ]);
                }
            }
            return false;
        }
        i += 1;
    }
    proof {
        assert(input@.subrange(pos as int, pos + pat@.len()) =~= pat@);
    }
    true
}

/// Position of the first occurrence of `pat` in `input` at or after `pos`.
pub fn find_from(input: &[u8], pat: &[u8], pos: usize) -> (r: Option<usize>)
    ensures
        match r {
            Some(j) => {
                &&& pos <= j
                &&& matches_at(input@, pat@, j as int)
                &&& spec_find(input@, pat@, pos as int) == Some(j as int)
            },
            None => spec_find(input@, pat@, pos as int) is None,
        },
{
    let n = input.len();
    let m = pat.len();
    if m > n || pos > n - m {
        return None;
    }
    let last = n - m;
    let mut i: usize = pos;
    while i <= last
        invariant
            n == input@.len(),
            m == pat@.len(),
            last == n - m,
            pos <= i,
            i <= last + 1,
            spec_find(input@, pat@, pos as int) == spec_find(input@, pat@, i as int),
        decreases last + 1 - i,
    {
        if tag_at(input, pat, i) {
            return Some(i);
        }
        proof {
            assert(spec_find(input@, pat@, i as int) == spec_find(input@, pat@, i + 1));
        }
        if i == last {
            proof {
                assert(spec_find(input@, pat@, i + 1) is None);
            }
            return None;
        }
        i += 1;
    }
    None
}

/// Copy of the `n` bytes of `input` at `pos`, or `TruncatedInput`.
pub fn take_bytes(input: &[u8], pos: usize, n: usize) -> (r: Result<(Vec<u8>, usize), DecodeError>)
    ensures
        match r {
            Ok((b, p)) => {
                &&& sp_take(input@, pos as int, n as int) == Ok::<_, DecodeError>((b@, p as int))
                &&& p <= input@.len()
            },
            Err(e) => sp_take(input@, pos as int, n as int) == Err::<(Seq<u8>, int), _>(e),
        },
{
    if n <= input.len() && pos <= input.len() - n {
        let b = slice_to_vec(slice_subrange(input, pos, pos + n));
        Ok((b, pos + n))
    } else {
        Err(DecodeError::TruncatedInput)
    }
}

/// The 4-byte little-endian unsigned integer at `pos`, or `TruncatedInput`.
pub fn read_u32(input: &[u8], pos: usize) -> (r: Result<(u32, usize), DecodeError>)
    ensures
        match r {
            Ok((x, p)) => {
                &&& sp_u32(input@, pos as int) == Ok::<_, DecodeError>((x, p as int))
                &&& p <= input@.len()
            },
            Err(e) => sp_u32(input@, pos as int) == Err::<(u32, int), _>(e),
        },
{
    if 4 <= input.len() && pos <= input.len() - 4 {
        let x = u32_from_le_bytes(slice_subrange(input, pos, pos + 4));
        Ok((x, pos + 4))
    } else {
        Err(DecodeError::TruncatedInput)
    }
}

/// The length-prefixed byte span at `pos`, or `TruncatedInput`.
pub fn read_length_data(input: &[u8], pos: usize) -> (r: Result<
    (Vec<u8>, usize),
    DecodeError,
>)
    ensures
        match r {
            Ok((b, p)) => {
                &&& sp_length_data(input@, pos as int) == Ok::<_, DecodeError>((b@, p as int))
                &&& b@.len() <= u32::MAX
                &&& p <= input@.len()
            },
            Err(e) => sp_length_data(input@, pos as int) == Err::<(Seq<u8>, int), _>(e),
        },
{
    match read_u32(input, pos) {
        Ok((n, p)) => take_bytes(input, p, n as usize),
        Err(e) => Err(e),
    }
}

/// Relies on `String::from_utf8`: it succeeds exactly on valid UTF-8 input,
/// and the returned string is backed by the given bytes unchanged, so its
/// characters are the UTF-8 decoding of those bytes.
#[verifier::external_body]
fn string_from_utf8(bytes: Vec<u8>) -> (r: Option<String>)
    ensures
        r is Some <==> valid_utf8(bytes@),
        r matches Some(s) ==> s@ == decode_utf8(bytes@),
{
    String::from_utf8(bytes).ok()
}

/// The length-prefixed UTF-8 string at `pos`, or the fault the specification
/// assigns to these bytes.
pub fn read_string(input: &[u8], pos: usize) -> (r: Result<(String, usize), DecodeError>)
    ensures
        match r {
            Ok((s, p)) => {
                &&& sp_string(input@, pos as int) == Ok::<_, DecodeError>((s@, p as int))
                &&& p <= input@.len()
            },
            Err(e) => sp_string(input@, pos as int) == Err::<(Seq<char>, int), _>(e),
        },
{
    match read_length_data(input, pos) {
        Ok((b, p)) => match string_from_utf8(b) {
            Some(s) => Ok((s, p)),
            None => Err(DecodeError::InvalidEncoding),
        },
        Err(e) => Err(e),
    }
}

/// The bytes between `pos` and the first occurrence of `pat`, and the position
/// just past that occurrence, or `MarkerNotFound`.
pub fn scan_past(input: &[u8], pat: &[u8], pos: usize) -> (r: Result<
    (Vec<u8>, usize),
    DecodeError,
>)
    ensures
        match r {
            Ok((b, p)) => {
                &&& sp_scan_past(input@, pat@, pos as int) == Ok::<_, DecodeError>((b@, p as int))
                &&& p <= input@.len()
            },
            Err(e) => sp_scan_past(input@, pat@, pos as int) == Err::<(Seq<u8>, int), _>(e),
        },
{
    match find_from(input, pat, pos) {
        Some(j) => {
            let n = input.len();
            proof {
                assert(j + pat@.len() <= n);
            }
            let b = slice_to_vec(slice_subrange(input, pos, j));
            Ok((b, j + pat.len()))
        },
        None => Err(DecodeError::MarkerNotFound),
    }
}

/// The bytes between `pos` and the first occurrence of `pat`, which is not
/// consumed: the returned position is that of the occurrence itself.
pub fn scan_to(input: &[u8], pat: &[u8], pos: usize) -> (r: Result<
    (Vec<u8>, usize),
    DecodeError,
>)
    ensures
        match r {
            Ok((b, p)) => {
                &&& sp_scan_to(input@, pat@, pos as int) == Ok::<_, DecodeError>((b@, p as int))
                &&& p <= input@.len()
            },
            Err(e) => sp_scan_to(input@, pat@, pos as int) == Err::<(Seq<u8>, int), _>(e),
        },
{
    match find_from(input, pat, pos) {
        Some(j) => {
            let b = slice_to_vec(slice_subrange(input, pos, j));
            Ok((b, j))
        },
        None => Err(DecodeError::MarkerNotFound),
    }
}

/// Append `b` to `out`.
pub fn push_bytes(out: &mut Vec<u8>, b: &[u8])
    ensures
        final(out)@ == old(out)@ + b@,
{
    let mut i: usize = 0;
    while i < b.len()
        invariant
            i <= b@.len(),
            out@ == old(out)@ + b@.subrange(0, i as int),
        decreases b@.len() - i,
    {
        out.push(b[i]);
        proof {
            assert(old(out)@ + b@.subrange(0, i as int) + seq![b@[i as int]] =~= old(out)@
                + b@.subrange(0, i + 1));
        }
        i += 1;
    }
    proof {
        assert(old(out)@ + b@.subrange(0, b@.len() as int) =~= old(out)@ + b@);
    }
}

/// Append the 4-byte little-endian encoding of `x` to `out`.
pub fn push_u32_le(out: &mut Vec<u8>, x: u32)
    ensures
        final(out)@ == old(out)@ + spec_u32_to_le_bytes(x),
{
    let mut enc = u32_to_le_bytes(x);
    out.append(&mut enc);
}

/// Append a length-prefixed copy of `b` to `out`.
pub fn push_length_prefixed(out: &mut Vec<u8>, b: &[u8])
    requires
        b@.len() <= u32::MAX,
    ensures
        final(out)@ == old(out)@ + spec_length_prefixed(b@),
{
    push_u32_le(out, b.len() as u32);
    push_bytes(out, b);
    proof {
        assert(old(out)@ + spec_u32_to_le_bytes(b@.len() as u32) + b@ =~= old(out)@
            + spec_length_prefixed(b@));
    }
}

} // verus!
