//! Version/string encoding utilities.
//!
//! Strings handed to the native API travel as null-terminated UTF-8 byte
//! buffers; versions travel as packed 32-bit integers. Both conversions are
//! specified here over the byte view of the input string.

use vstd::prelude::*;
use vstd::string::StringSliceAdditionalSpecFns;
use vstd::utf8::encode_utf8;

use crate::errors::Error;

verus! {

/// The null terminator of a native string.
pub const NUL: u8 = 0;
/// The byte separating version components.
pub const DOT: u8 = 46;
/// The byte value of the digit '0'.
pub const DIGIT_ZERO: u8 = 48;
/// The byte value of the digit '9'.
pub const DIGIT_NINE: u8 = 57;

/// A string can be encoded for the native API iff its UTF-8 bytes hold no
/// embedded null byte.
pub open spec fn spec_encodable(b: Seq<u8>) -> bool {
    forall|i: int| 0 <= i < b.len() ==> b[i] != NUL
}

/// The native form of a string: its UTF-8 bytes followed by a null terminator.
pub open spec fn spec_native_string(b: Seq<u8>) -> Seq<u8> {
    b.push(NUL)
}

/// Converts a string to a null-terminated byte buffer.
///
/// Fails with `Error::StringEncoding` iff the string contains an embedded
/// null byte.
pub fn to_c_str(s: &str) -> (r: Result<Vec<u8>, Error>)
    ensures
        match r {
            Ok(v) => spec_encodable(s.spec_bytes()) && v@ == spec_native_string(s.spec_bytes()),
            Err(e) => e == Error::StringEncoding && !spec_encodable(s.spec_bytes()),
        },
{
    let bytes = s.as_bytes();
    let mut out: Vec<u8> = Vec::new();
    let mut i: usize = 0;
    while i < bytes.len()
        invariant
            0 <= i <= bytes@.len(),
            bytes@ == s.spec_bytes(),
            out@ == s.spec_bytes().subrange(0, i as int),
            forall|j: int| 0 <= j < i ==> s.spec_bytes()[j] != NUL,
        decreases bytes@.len() - i,
    {
        let b = bytes[i];
        if b == NUL {
            return Err(Error::StringEncoding);
        }
        out.push(b);
        i = i + 1;
    }
    assert(out@ =~= s.spec_bytes());
    out.push(NUL);
    Ok(out)
}

/// Converts a list of strings to null-terminated byte buffers, in order.
///
/// Fails with `Error::StringEncoding` iff some entry contains an embedded
/// null byte.
pub fn to_c_str_array(strings: &Vec<String>) -> (r: Result<Vec<Vec<u8>>, Error>)
    ensures
        match r {
            Ok(v) => {
                &&& v@.len() == strings@.len()
                &&& forall|i: int|
                    #![trigger encode_utf8(strings@[i]@)]
                    0 <= i < strings@.len() ==> {
                        &&& spec_encodable(encode_utf8(strings@[i]@))
                        &&& v@[i]@ == spec_native_string(encode_utf8(strings@[i]@))
                    }
            },
            Err(e) => {
                &&& e == Error::StringEncoding
                &&& exists|i: int|
                    0 <= i < strings@.len() && !spec_encodable(#[trigger] encode_utf8(strings@[i]@))
            },
        },
{
    let mut out: Vec<Vec<u8>> = Vec::new();
    let mut i: usize = 0;
    while i < strings.len()
        invariant
            0 <= i <= strings@.len(),
            out@.len() == i,
            forall|j: int|
                0 <= j < i ==> {
                    &&& spec_encodable(#[trigger] encode_utf8(strings@[j]@))
                    &&& out@[j]@ == spec_native_string(encode_utf8(strings@[j]@))
                },
        decreases strings@.len() - i,
    {
        match to_c_str(strings[i].as_str()) {
            Ok(v) => {
                out.push(v);
            },
            Err(e) => {
                return Err(e);
            },
        }
        i = i + 1;
    }
    Ok(out)
}

/// Copies a byte buffer.
pub fn copy_bytes(v: &Vec<u8>) -> (r: Vec<u8>)
    ensures
        r@ == v@,
{
    let mut r: Vec<u8> = Vec::new();
    let mut i: usize = 0;
    while i < v.len()
        invariant
            i <= v@.len(),
            r@ == v@.subrange(0, i as int),
        decreases v@.len() - i,
    {
        r.push(v[i]);
        i = i + 1;
    }
    assert(r@ =~= v@);
    r
}

/// Copies a list of byte buffers.
pub fn copy_byte_lists(v: &Vec<Vec<u8>>) -> (r: Vec<Vec<u8>>)
    ensures
        r@.len() == v@.len(),
        forall|i: int| 0 <= i < v@.len() ==> (#[trigger] r@[i])@ == v@[i]@,
{
    let mut r: Vec<Vec<u8>> = Vec::new();
    let mut i: usize = 0;
    while i < v.len()
        invariant
            i <= v@.len(),
            r@.len() == i,
            forall|j: int| 0 <= j < i ==> (#[trigger] r@[j])@ == v@[j]@,
        decreases v@.len() - i,
    {
        r.push(copy_bytes(&v[i]));
        i = i + 1;
    }
    r
}

/// Compares two byte buffers for equality.
pub fn bytes_eq(a: &Vec<u8>, b: &Vec<u8>) -> (r: bool)
    ensures
        r == (a@ == b@),
{
    if a.len() != b.len() {
        return false;
    }
    let mut i: usize = 0;
    while i < a.len()
        invariant
            a@.len() == b@.len(),
            i <= a@.len(),
            forall|j: int| 0 <= j < i ==> a@[j] == b@[j],
        decreases a@.len() - i,
    {
        if a[i] != b[i] {
            return false;
        }
        i = i + 1;
    }
    assert(a@ =~= b@);
    true
}

/// Whether the byte string `x` occurs in `list`.
pub open spec fn spec_contains_bytes(list: Seq<Vec<u8>>, x: Seq<u8>) -> bool {
    exists|i: int| 0 <= i < list.len() && (#[trigger] list[i]@) == x
}

/// Tests whether the byte string `x` occurs in `list`.
pub fn contains_bytes(list: &Vec<Vec<u8>>, x: &Vec<u8>) -> (r: bool)
    ensures
        r == spec_contains_bytes(list@, x@),
{
    let mut i: usize = 0;
    while i < list.len()
        invariant
            i <= list@.len(),
            forall|j: int| 0 <= j < i ==> (#[trigger] list@[j]@) != x@,
        decreases list@.len() - i,
    {
        if bytes_eq(&list[i], x) {
            return true;
        }
        i = i + 1;
    }
    false
}

/// The packed native version encoding:
/// `(variant << 29) | (major << 22) | (minor << 12) | patch`.
pub open spec fn spec_make_version(variant: u32, major: u32, minor: u32, patch: u32) -> u32 {
    (variant << 29u32) | (major << 22u32) | (minor << 12u32) | patch
}

/// Packs version components into the native 32-bit version encoding.
///
/// Component values are expected to fit the packed bit widths; larger values
/// lose their high bits to the packing, as the native encoding does.
pub fn make_api_version(variant: u32, major: u32, minor: u32, patch: u32) -> (r: u32)
    ensures
        r == spec_make_version(variant, major, minor, patch),
{
    (variant << 29u32) | (major << 22u32) | (minor << 12u32) | patch
}

/// Whether a byte is a decimal digit.
pub open spec fn spec_is_digit(b: u8) -> bool {
    DIGIT_ZERO <= b <= DIGIT_NINE
}

/// Whether a byte sequence is a non-empty run of decimal digits.
pub open spec fn spec_all_digits(b: Seq<u8>) -> bool {
    b.len() > 0 && forall|i: int| 0 <= i < b.len() ==> spec_is_digit(#[trigger] b[i])
}

/// The value of a run of decimal digits, most significant first.
pub open spec fn spec_digits_value(b: Seq<u8>) -> int
    decreases b.len(),
{
    if b.len() == 0 {
        0
    } else {
        spec_digits_value(b.drop_last()) * 10 + (b.last() - DIGIT_ZERO)
    }
}

/// Whether a byte sequence parses as a decimal `u32`.
pub open spec fn spec_parses_u32(b: Seq<u8>) -> bool {
    spec_all_digits(b) && spec_digits_value(b) <= u32::MAX
}

/// The index of the first dot at or after `from`, or the length if none.
pub open spec fn spec_find_dot(b: Seq<u8>, from: int) -> int
    decreases b.len() - from,
{
    if from < 0 || from >= b.len() {
        b.len() as int
    } else if b[from] == DOT {
        from
    } else {
        spec_find_dot(b, from + 1)
    }
}

/// What parsing a "major.minor.patch" string yields: the packed version of
/// the first three dot-separated components, or nothing if there are fewer
/// than three components or one of the first three is not a decimal `u32`.
pub open spec fn spec_version_of(b: Seq<u8>) -> Option<u32> {
    let d0 = spec_find_dot(b, 0);
    let d1 = spec_find_dot(b, d0 + 1);
    let d2 = spec_find_dot(b, d1 + 1);
    if d0 >= b.len() || d1 >= b.len() {
        Option::None
    } else {
        let s0 = b.subrange(0, d0);
        let s1 = b.subrange(d0 + 1, d1);
        let s2 = b.subrange(d1 + 1, d2);
        if spec_parses_u32(s0) && spec_parses_u32(s1) && spec_parses_u32(s2) {
            Option::Some(
                spec_make_version(
                    0,
                    spec_digits_value(s0) as u32,
                    spec_digits_value(s1) as u32,
                    spec_digits_value(s2) as u32,
                ),
            )
        } else {
            Option::None
        }
    }
}

/// The first dot at or after `from` is at `upto`, when everything before
/// `upto` is not a dot and `upto` is a dot or the end.
proof fn lemma_find_dot_skip(b: Seq<u8>, from: int, upto: int)
    requires
        0 <= from <= upto <= b.len(),
        forall|i: int| from <= i < upto ==> b[i] != DOT,
        upto == b.len() || b[upto] == DOT,
    ensures
        spec_find_dot(b, from) == upto,
    decreases upto - from,
{
    if from < upto {
        lemma_find_dot_skip(b, from + 1, upto);
    }
}

/// Version packing round trip: parsing a "major.minor.patch" string built
/// from three decimal `u32` components yields exactly the packed version of
/// those three components.
pub proof fn lemma_version_round_trip(s0: Seq<u8>, s1: Seq<u8>, s2: Seq<u8>)
    requires
        spec_parses_u32(s0),
        spec_parses_u32(s1),
        spec_parses_u32(s2),
    ensures
        spec_version_of(s0 + seq![DOT] + s1 + seq![DOT] + s2) == Option::Some(
            spec_make_version(
                0,
                spec_digits_value(s0) as u32,
                spec_digits_value(s1) as u32,
                spec_digits_value(s2) as u32,
            ),
        ),
{
    let b = s0 + seq![DOT] + s1 + seq![DOT] + s2;
    let n0 = s0.len() as int;
    let n1 = s1.len() as int;
    assert forall|i: int| 0 <= i < n0 implies b[i] != DOT by {
        assert(b[i] == s0[i]);
        assert(spec_is_digit(s0[i]));
    }
    assert(b[n0] == DOT);
    lemma_find_dot_skip(b, 0, n0);
    assert forall|i: int| n0 + 1 <= i < n0 + 1 + n1 implies b[i] != DOT by {
        assert(b[i] == s1[i - n0 - 1]);
        assert(spec_is_digit(s1[i - n0 - 1]));
    }
    assert(b[n0 + 1 + n1] == DOT);
    lemma_find_dot_skip(b, n0 + 1, n0 + 1 + n1);
    assert forall|i: int| n0 + 1 + n1 + 1 <= i < b.len() implies b[i] != DOT by {
        assert(b[i] == s2[i - n0 - n1 - 2]);
        assert(spec_is_digit(s2[i - n0 - n1 - 2]));
    }
    lemma_find_dot_skip(b, n0 + 1 + n1 + 1, b.len() as int);
    assert(b.subrange(0, n0) =~= s0);
    assert(b.subrange(n0 + 1, n0 + 1 + n1) =~= s1);
    assert(b.subrange(n0 + 1 + n1 + 1, b.len() as int) =~= s2);
}

/// A run of decimal digits has a non-negative value.
proof fn lemma_digits_value_nonneg(b: Seq<u8>)
    requires
        forall|i: int| 0 <= i < b.len() ==> spec_is_digit(#[trigger] b[i]),
    ensures
        spec_digits_value(b) >= 0,
    decreases b.len(),
{
    if b.len() > 0 {
        lemma_digits_value_nonneg(b.drop_last());
    }
}

/// Extending a digit run by one digit multiplies its value by ten and adds
/// the digit.
proof fn lemma_digits_value_step(b: Seq<u8>, i: int)
    requires
        0 <= i < b.len(),
    ensures
        spec_digits_value(b.subrange(0, i + 1)) == spec_digits_value(b.subrange(0, i)) * 10 + (
        b[i] - DIGIT_ZERO),
{
    assert(b.subrange(0, i + 1).drop_last() =~= b.subrange(0, i));
    assert(b.subrange(0, i + 1).last() == b[i]);
}

/// A digit run is worth at least any of its prefixes.
proof fn lemma_digits_value_prefix_le(b: Seq<u8>, i: int)
    requires
        0 <= i <= b.len(),
        forall|k: int| 0 <= k < b.len() ==> spec_is_digit(#[trigger] b[k]),
    ensures
        spec_digits_value(b.subrange(0, i)) <= spec_digits_value(b),
    decreases b.len() - i,
{
    if i == b.len() {
        assert(b.subrange(0, i) =~= b);
    } else {
        lemma_digits_value_step(b, i);
        lemma_digits_value_nonneg(b.subrange(0, i));
        lemma_digits_value_prefix_le(b, i + 1);
    }
}

/// Parses the digit run `bytes[start..end]` as a `u32`.
fn parse_u32_segment(bytes: &[u8], start: usize, end: usize) -> (r: Option<u32>)
    requires
        0 <= start <= end <= bytes@.len(),
    ensures
        match r {
            Some(v) => spec_parses_u32(bytes@.subrange(start as int, end as int)) && v
                == spec_digits_value(bytes@.subrange(start as int, end as int)),
            None => !spec_parses_u32(bytes@.subrange(start as int, end as int)),
        },
{
    let ghost seg = bytes@.subrange(start as int, end as int);
    if start == end {
        return None;
    }
    let mut acc: u64 = 0;
    let mut i: usize = start;
    while i < end
        invariant
            start <= i <= end <= bytes@.len(),
            seg == bytes@.subrange(start as int, end as int),
            forall|k: int| 0 <= k < i - start ==> spec_is_digit(#[trigger] seg[k]),
            acc == spec_digits_value(seg.subrange(0, i - start)),
            acc <= u32::MAX,
        decreases end - i,
    {
        let b = bytes[i];
        assert(seg[i - start] == b);
        if b < DIGIT_ZERO || b > DIGIT_NINE {
            return None;
        }
        proof {
            lemma_digits_value_step(seg, i - start);
        }
        let next = acc * 10 + ((b - DIGIT_ZERO) as u64);
        if next > (u32::MAX as u64) {
            proof {
                if spec_all_digits(seg) {
                    lemma_digits_value_prefix_le(seg, i - start + 1);
                }
            }
            return None;
        }
        acc = next;
        i = i + 1;
    }
    assert(seg.subrange(0, end - start) =~= seg);
    Some(acc as u32)
}

/// Finds the first dot at or after `from`, or the length if none.
fn find_dot(bytes: &[u8], from: usize) -> (r: usize)
    requires
        from <= bytes@.len(),
    ensures
        r == spec_find_dot(bytes@, from as int),
        from <= r <= bytes@.len(),
        r < bytes@.len() ==> bytes@[r as int] == DOT,
{
    let mut i: usize = from;
    while i < bytes.len()
        invariant
            from <= i <= bytes@.len(),
            spec_find_dot(bytes@, from as int) == spec_find_dot(bytes@, i as int),
        decreases bytes@.len() - i,
    {
        if bytes[i] == DOT {
            return i;
        }
        i = i + 1;
    }
    i
}

/// Parses "major.minor.patch" into the packed native version encoding.
///
/// Splits on dots, parses the first three components as decimal `u32`
/// values, and packs them with variant 0. Fails with `Error::VersionParse`
/// iff the string has fewer than three components or one of the first three
/// is not a decimal `u32`.
pub fn to_version(version: &str) -> (r: Result<u32, Error>)
    ensures
        match r {
            Ok(v) => spec_version_of(version.spec_bytes()) == Option::Some(v),
            Err(e) => e == Error::VersionParse && spec_version_of(version.spec_bytes())
                is None,
        },
{
    let bytes = version.as_bytes();
    let d0 = find_dot(bytes, 0);
    if d0 == bytes.len() {
        return Err(Error::VersionParse);
    }
    let d1 = find_dot(bytes, d0 + 1);
    if d1 == bytes.len() {
        return Err(Error::VersionParse);
    }
    let d2 = find_dot(bytes, d1 + 1);
    let major = parse_u32_segment(bytes, 0, d0);
    let minor = parse_u32_segment(bytes, d0 + 1, d1);
    let patch = parse_u32_segment(bytes, d1 + 1, d2);
    match (major, minor, patch) {
        (Some(ma), Some(mi), Some(pa)) => Ok(make_api_version(0, ma, mi, pa)),
        _ => Err(Error::VersionParse),
    }
}

} // verus!
