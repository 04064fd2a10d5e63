//! Checking a downloaded model against its published digest.

use vstd::prelude::*;
use crate::text::{chars_of, digit_char};
use sha1::Digest;

verus! {

/// A running `sha1::Sha1`.
#[verifier::external_body]
pub struct Sha1Stream {
    inner: sha1::Sha1,
}

/// The bytes that a running digest was given so far.
pub uninterp spec fn absorbed(h: Sha1Stream) -> Seq<u8>;

/// The SHA-1 digest of these bytes, as the `sha1` crate computes it.
pub uninterp spec fn sha1_digest(bytes: Seq<u8>) -> Seq<u8>;

/// `sha1::Sha1::new`: nothing has been given.
#[verifier::external_body]
fn sha1_new() -> (h: Sha1Stream)
    ensures
        absorbed(h) == Seq::<u8>::empty(),
{
    Sha1Stream { inner: sha1::Sha1::new() }
}

/// `sha1::Digest::update` adds the bytes to what was given.
#[verifier::external_body]
fn sha1_update(h: &mut Sha1Stream, bytes: &[u8])
    ensures
        absorbed(*final(h)) == absorbed(*old(h)) + bytes@,
{
    h.inner.update(bytes)
}

/// `sha1::Digest::finalize` returns the digest of all that was given: twenty bytes.
#[verifier::external_body]
fn sha1_finalize(h: Sha1Stream) -> (r: Vec<u8>)
    ensures
        r@ == sha1_digest(absorbed(h)),
        r@.len() == 20,
{
    h.inner.finalize().to_vec()
}

/// Bytes in lower-case hexadecimal, two digits each.
pub open spec fn hex(bytes: Seq<u8>) -> Seq<char> {
    Seq::new(
        bytes.len() * 2,
        |i: int|
            if i % 2 == 0 {
                digit_char(bytes[i / 2] as int / 16)
            } else {
                digit_char(bytes[i / 2] as int % 16)
            },
    )
}

/// An ASCII capital as its small letter; any other character as it is.
pub open spec fn ascii_lower(c: char) -> char {
    if 'A' <= c <= 'Z' {
        (c as int + 32) as char
    } else {
        c
    }
}

/// Whether two texts differ in the case of ASCII letters only.
pub open spec fn same_but_case(a: Seq<char>, b: Seq<char>) -> bool {
    &&& a.len() == b.len()
    &&& forall|i: int| 0 <= i < a.len() ==> ascii_lower(#[trigger] a[i]) == ascii_lower(b[i])
}

fn to_ascii_lower(c: char) -> (r: char)
    ensures
        r == ascii_lower(c),
{
    if 'A' <= c && c <= 'Z' {
        let code: u8 = c as u8;
        (code + 32) as char
    } else {
        c
    }
}

fn hex_digit(d: u8) -> (r: char)
    requires
        d < 16,
    ensures
        r == digit_char(d as int),
{
    if d < 10 {
        (48u8 + d) as char
    } else {
        (87u8 + d) as char
    }
}

/// Bytes in lower-case hexadecimal.
pub fn to_hex(bytes: &[u8]) -> (r: Vec<char>)
    requires
        bytes@.len() * 2 <= usize::MAX,
    ensures
        r@ == hex(bytes@),
{
    let mut out: Vec<char> = Vec::new();
    let mut i: usize = 0;
    while i < bytes.len()
        invariant
            i <= bytes.len(),
            out@ == hex(bytes@.take(i as int)),
        decreases bytes.len() - i,
    {
        out.push(hex_digit(bytes[i] / 16));
        out.push(hex_digit(bytes[i] % 16));
        i += 1;
        proof {
            assert(out@ =~= hex(bytes@.take(i as int)));
        }
    }
    proof {
        assert(bytes@.take(bytes@.len() as int) =~= bytes@);
    }
    out
}

/// Whether the digest is the expected one, in hexadecimal of either case.
pub fn digest_matches(digest: &[u8], expected: &str) -> (r: bool)
    requires
        digest@.len() * 2 <= usize::MAX,
    ensures
        r == same_but_case(hex(digest@), expected@),
{
    let actual = to_hex(digest);
    let wanted = chars_of(expected);
    if actual.len() != wanted.len() {
        return false;
    }
    let mut i: usize = 0;
    while i < actual.len()
        invariant
            i <= actual.len(),
            actual.len() == wanted.len(),
            actual@ == hex(digest@),
            wanted@ == expected@,
            forall|k: int| 0 <= k < i ==> ascii_lower(#[trigger] actual@[k]) == ascii_lower(wanted@[k]),
        decreases actual.len() - i,
    {
        if to_ascii_lower(actual[i]) != to_ascii_lower(wanted[i]) {
            return false;
        }
        i += 1;
    }
    true
}

/// A check of a model file against its digest, while the file is read piece by piece.
pub struct ModelCheck {
    pub hasher: Sha1Stream,
}

impl ModelCheck {
    /// What has been read of the file.
    pub open spec fn read(self) -> Seq<u8> {
        absorbed(self.hasher)
    }

    /// A check that has read nothing yet.
    pub fn new() -> (r: Self)
        ensures
            r.read() == Seq::<u8>::empty(),
    {
        ModelCheck { hasher: sha1_new() }
    }

    /// The next piece of the file.
    pub fn update(&mut self, bytes: &[u8])
        ensures
            final(self).read() == old(self).read() + bytes@,
    {
        sha1_update(&mut self.hasher, bytes);
    }

    /// Whether what has been read has the expected digest, ignoring the case of its digits.
    pub fn verify_sha1(self, expected: &str) -> (r: bool)
        ensures
            r == same_but_case(hex(sha1_digest(self.read())), expected@),
    {
        let digest = sha1_finalize(self.hasher);
        digest_matches(digest.as_slice(), expected)
    }
}

/// The comparison does not depend on the case of the expected digest.
pub proof fn the_case_of_a_digest_is_ignored(digest: Seq<u8>, expected: Seq<char>, other: Seq<char>)
    requires
        same_but_case(expected, other),
    ensures
        same_but_case(hex(digest), expected) == same_but_case(hex(digest), other),
{
    if same_but_case(hex(digest), expected) {
        assert forall|i: int| 0 <= i < hex(digest).len() implies ascii_lower(
            #[trigger] hex(digest)[i],
        ) == ascii_lower(other[i]) by {
            assert(ascii_lower(expected[i]) == ascii_lower(other[i]));
        }
    }
    if same_but_case(hex(digest), other) {
        assert forall|i: int| 0 <= i < hex(digest).len() implies ascii_lower(
            #[trigger] hex(digest)[i],
        ) == ascii_lower(expected[i]) by {
            assert(ascii_lower(expected[i]) == ascii_lower(other[i]));
        }
    }
}

/// Equal digests are the only ones that match the same text.
pub proof fn one_digest_for_one_text(digest: Seq<u8>, other: Seq<u8>, expected: Seq<char>)
    requires
        same_but_case(hex(digest), expected),
        same_but_case(hex(other), expected),
    ensures
        digest == other,
{
    assert(digest.len() == other.len());
    assert forall|i: int| 0 <= i < digest.len() implies digest[i] == other[i] by {
        let a = hex(digest);
        let b = hex(other);
        assert(a[2 * i] == digit_char(digest[i] as int / 16));
        assert(a[2 * i + 1] == digit_char(digest[i] as int % 16));
        assert(b[2 * i] == digit_char(other[i] as int / 16));
        assert(b[2 * i + 1] == digit_char(other[i] as int % 16));
        assert(ascii_lower(a[2 * i]) == ascii_lower(expected[2 * i]));
        assert(ascii_lower(b[2 * i]) == ascii_lower(expected[2 * i]));
        assert(ascii_lower(a[2 * i + 1]) == ascii_lower(expected[2 * i + 1]));
        assert(ascii_lower(b[2 * i + 1]) == ascii_lower(expected[2 * i + 1]));
    }
    assert(digest =~= other);
}

/// A byte is written as its two hexadecimal digits, the higher first, in small letters.
pub proof fn a_byte_is_two_digits(bytes: &[u8], r: Vec<char>, i: int)
    requires
        bytes@.len() * 2 <= usize::MAX,
        call_ensures(to_hex, (bytes,), r),
        0 <= i < bytes@.len(),
    ensures
        r@.len() == 2 * bytes@.len(),
        ({
            let high = bytes@[i] as int / 16;
            let low = bytes@[i] as int % 16;
            &&& r@[2 * i] as int == (if high < 10 {
                48 + high
            } else {
                87 + high
            })
            &&& r@[2 * i + 1] as int == (if low < 10 {
                48 + low
            } else {
                87 + low
            })
        }),
{
    assert((2 * i) / 2 == i && (2 * i) % 2 == 0);
    assert((2 * i + 1) / 2 == i && (2 * i + 1) % 2 == 1);
}

/// Whether a character is this hexadecimal digit, small or capital.
pub open spec fn is_hex_digit(c: char, d: int) -> bool {
    if d < 10 {
        c as int == 48 + d
    } else {
        c as int == 87 + d || c as int == 55 + d
    }
}

/// A digest matches a text exactly if the text is its bytes in hexadecimal, all of them, in small
/// letters or capitals.
pub proof fn a_digest_matches_its_own_digits(digest: &[u8], expected: &str, r: bool)
    requires
        digest@.len() * 2 <= usize::MAX,
        call_ensures(digest_matches, (digest, expected), r),
    ensures
        r <==> expected@.len() == 2 * digest@.len() && forall|i: int|
            0 <= i < digest@.len() ==> is_hex_digit(
                expected@[2 * i],
                (#[trigger] digest@[i]) as int / 16,
            ) && is_hex_digit(expected@[2 * i + 1], digest@[i] as int % 16),
{
    let h = hex(digest@);
    let e = expected@;
    if r {
        assert forall|i: int| 0 <= i < digest@.len() implies is_hex_digit(
            e[2 * i],
            (#[trigger] digest@[i]) as int / 16,
        ) && is_hex_digit(e[2 * i + 1], digest@[i] as int % 16) by {
            assert(ascii_lower(h[2 * i]) == ascii_lower(e[2 * i]));
            assert(ascii_lower(h[2 * i + 1]) == ascii_lower(e[2 * i + 1]));
        }
    } else if e.len() == 2 * digest@.len() && forall|i: int|
        0 <= i < digest@.len() ==> is_hex_digit(e[2 * i], (#[trigger] digest@[i]) as int / 16)
            && is_hex_digit(e[2 * i + 1], digest@[i] as int % 16) {
        assert forall|k: int| 0 <= k < h.len() implies ascii_lower(#[trigger] h[k])
            == ascii_lower(e[k]) by {
            let i = k / 2;
            assert(0 <= i < digest@.len());
            assert(is_hex_digit(e[2 * i], digest@[i] as int / 16));
            assert(is_hex_digit(e[2 * i + 1], digest@[i] as int % 16));
            if k % 2 == 0 {
                assert(k == 2 * i);
            } else {
                assert(k == 2 * i + 1);
            }
        }
    }
}

/// A file is checked by the digest of all its pieces, in order.
pub proof fn a_file_is_checked_as_a_whole(
    check: ModelCheck,
    digest: &[u8],
    expected: &str,
    matching: bool,
    r: bool,
)
    requires
        digest@ == sha1_digest(check.read()),
        digest@.len() == 20,
        call_ensures(digest_matches, (digest, expected), matching),
        call_ensures(ModelCheck::verify_sha1, (check, expected), r),
    ensures
        r == matching,
        forall|running: &mut ModelCheck, bytes: &[u8]|
            #[trigger] call_ensures(ModelCheck::update, (running, bytes), ()) ==> (*final(
                running
            )).read() == (*running).read() + bytes@,
{
}

/// A check begins with nothing read.
pub proof fn a_check_begins_with_nothing_read(check: ModelCheck)
    requires
        call_ensures(ModelCheck::new, (), check),
    ensures
        check.read().len() == 0,
{
}

} // verus!
