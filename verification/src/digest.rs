//! Digests, their hexadecimal notation and message authentication.

use crate::error::{invalid, invalid_fault, Fault, OrchError};
use crate::json::Json;
use crate::text::{
    byte_len, contains_text, occurs_at, str_contains, str_has_char, to_chars, utf8_len,
};
use sha2::Digest;
use vstd::prelude::*;
use vstd::string::*;
use vstd::utf8::encode_utf8;

verus! {

/// The SHA-256 digest that `sha2` computes.
pub uninterp spec fn sha256_of(data: Seq<u8>) -> Seq<u8>;

/// `sha2::Sha256::digest`: the digest of the whole input, 32 bytes.
#[verifier::external_body]
fn sha256(data: &[u8]) -> (d: Vec<u8>)
    ensures
        d@ == sha256_of(data@),
        d@.len() == 32,
{
    sha2::Sha256::digest(data).to_vec()
}

/// The hexadecimal digit `n`, in lower case.
pub open spec fn hex_digit(n: int) -> char {
    if n < 10 {
        (('0' as u32) + n) as u32 as char
    } else {
        (('a' as u32) + n - 10) as u32 as char
    }
}

/// Two lower-case hexadecimal digits for each byte.
pub open spec fn hex(bytes: Seq<u8>) -> Seq<char> {
    Seq::new(
        2 * bytes.len(),
        |i: int|
            if i % 2 == 0 {
                hex_digit(bytes[i / 2] as int / 16)
            } else {
                hex_digit(bytes[i / 2] as int % 16)
            },
    )
}

fn nibble_char(n: u8) -> (c: char)
    requires
        n < 16,
    ensures
        c == hex_digit(n as int),
{
    if n < 10 {
        (0x30 + n) as char
    } else {
        (0x61 + (n - 10)) as char
    }
}

fn char_nibble(c: char) -> (r: Option<u8>)
    ensures
        match r {
            Some(n) => n < 16 && hex_digit(n as int) == c,
            None => forall|n: int| 0 <= n < 16 ==> hex_digit(n) != c,
        },
{
    let n: u32 = c as u32;
    if n >= 0x30 && n <= 0x39 {
        Some((n - 0x30) as u8)
    } else if n >= 0x61 && n <= 0x66 {
        Some((n - 0x61 + 10) as u8)
    } else {
        None
    }
}

/// The lower-case hexadecimal notation of a digest.
pub fn hex_sha256(bytes: &[u8]) -> (out: String)
    ensures
        out@ == hex(bytes@),
{
    let mut out: String = String::new();
    let mut i: usize = 0;
    while i < bytes.len()
        invariant
            i <= bytes@.len(),
            out@ == hex(bytes@).take(2 * i),
        decreases bytes.len() - i,
    {
        let b: u8 = bytes[i];
        out.push(nibble_char(b / 16));
        out.push(nibble_char(b % 16));
        proof {
            assert((2 * i) % 2 == 0 && (2 * i) / 2 == i);
            assert((2 * i + 1) % 2 == 1 && (2 * i + 1) / 2 == i);
            assert(hex(bytes@).take(2 * (i + 1)) =~= hex(bytes@).take(2 * i).push(
                hex_digit(b as int / 16),
            ).push(hex_digit(b as int % 16)));
        }
        i = i + 1;
    }
    proof {
        assert(hex(bytes@).take(2 * bytes@.len() as int) =~= hex(bytes@));
    }
    out
}

/// The lower-case hexadecimal notation of a payload.
pub fn hex_encode(bytes: &[u8]) -> (out: String)
    ensures
        out@ == hex(bytes@),
{
    hex_sha256(bytes)
}

proof fn hex_digit_injective(m: int, n: int)
    requires
        0 <= m < 16,
        0 <= n < 16,
        hex_digit(m) == hex_digit(n),
    ensures
        m == n,
{
    assert(hex_digit(m) as u32 == if m < 10 {
        0x30 + m
    } else {
        0x61 + m - 10
    });
    assert(hex_digit(n) as u32 == if n < 10 {
        0x30 + n
    } else {
        0x61 + n - 10
    });
}

/// Different bytes have different notations.
pub proof fn hex_injective(a: Seq<u8>, b: Seq<u8>)
    requires
        hex(a) == hex(b),
    ensures
        a == b,
{
    assert(hex(a).len() == 2 * a.len());
    assert(hex(b).len() == 2 * b.len());
    assert forall|i: int| 0 <= i < a.len() implies a[i] == b[i] by {
        assert((2 * i) % 2 == 0 && (2 * i) / 2 == i);
        assert((2 * i + 1) % 2 == 1 && (2 * i + 1) / 2 == i);
        assert(hex(a)[2 * i] == hex_digit(a[i] as int / 16));
        assert(hex(b)[2 * i] == hex_digit(b[i] as int / 16));
        assert(hex(a)[2 * i + 1] == hex_digit(a[i] as int % 16));
        assert(hex(b)[2 * i + 1] == hex_digit(b[i] as int % 16));
        hex_digit_injective(a[i] as int / 16, b[i] as int / 16);
        hex_digit_injective(a[i] as int % 16, b[i] as int % 16);
    }
    assert(a =~= b);
}

/// The bytes that a lower-case hexadecimal text stands for, and nothing for
/// any other text. Every byte string has exactly one notation.
pub fn hex_decode(text: &str) -> (r: Option<Vec<u8>>)
    ensures
        match r {
            Some(b) => hex(b@) == text@,
            None => forall|b: Seq<u8>| #[trigger] hex(b) != text@,
        },
{
    let v: Vec<char> = to_chars(text);
    if v.len() % 2 != 0 {
        proof {
            assert forall|b: Seq<u8>| #[trigger] hex(b) != text@ by {
                assert(hex(b).len() == 2 * b.len());
            }
        }
        return None;
    }
    let mut out: Vec<u8> = Vec::new();
    let mut i: usize = 0;
    while i < v.len()
        invariant
            v@ == text@,
            v@.len() % 2 == 0,
            i % 2 == 0,
            i <= v@.len(),
            out@.len() * 2 == i,
            hex(out@) == text@.take(i as int),
        decreases v.len() - i,
    {
        let high: Option<u8> = char_nibble(v[i]);
        let low: Option<u8> = char_nibble(v[i + 1]);
        if high.is_none() || low.is_none() {
            proof {
                assert forall|b: Seq<u8>| #[trigger] hex(b) != text@ by {
                    if hex(b) == text@ {
                        let k = i as int / 2;
                        assert(i == 2 * k);
                        assert(hex(b)[i as int] == hex_digit(b[k] as int / 16));
                        assert((i + 1) % 2 == 1 && (i as int + 1) / 2 == k);
                        assert(hex(b)[i as int + 1] == hex_digit(b[k] as int % 16));
                    }
                }
            }
            return None;
        }
        let h: u8 = high.unwrap();
        let l: u8 = low.unwrap();
        let ghost before = out@;
        out.push(h * 16 + l);
        proof {
            let byte = (h * 16 + l) as int;
            assert(byte / 16 == h as int && byte % 16 == l as int);
            assert forall|j: int| 0 <= j < i + 2 implies hex(out@)[j] == text@.take(i + 2)[j] by {
                if j < i {
                    assert(hex(before)[j] == text@.take(i as int)[j]);
                    assert(j / 2 < before.len());
                    assert(out@[j / 2] == before[j / 2]);
                } else if j == i {
                    assert(j / 2 == before.len());
                } else {
                    assert(j / 2 == before.len());
                    assert(j % 2 == 1);
                }
            }
            assert(hex(out@) =~= text@.take(i + 2));
        }
        i = i + 2;
    }
    proof {
        assert(text@.take(text@.len() as int) =~= text@);
    }
    Some(out)
}

/// Decoding undoes encoding: the only bytes whose notation is `hex(b)` are `b`.
pub proof fn hex_round_trip(b: Seq<u8>, decoded: Seq<u8>)
    requires
        hex(decoded) == hex(b),
    ensures
        decoded == b,
{
    hex_injective(decoded, b);
}

/// The hexadecimal SHA-256 digest of a text's encoding.
pub open spec fn text_digest(s: Seq<char>) -> Seq<char> {
    hex(sha256_of(encode_utf8(s)))
}

/// Two texts are no collision of SHA-256: they differ in digest or not at all.
pub open spec fn no_collision(a: Seq<char>, b: Seq<char>) -> bool {
    sha256_of(encode_utf8(a)) == sha256_of(encode_utf8(b)) ==> a == b
}

/// Texts that are no collision differ in their hexadecimal digests as well.
pub proof fn digests_differ(a: Seq<char>, b: Seq<char>)
    requires
        no_collision(a, b),
        a != b,
    ensures
        text_digest(a) != text_digest(b),
{
    if text_digest(a) == text_digest(b) {
        hex_injective(sha256_of(encode_utf8(a)), sha256_of(encode_utf8(b)));
    }
}

/// The hexadecimal SHA-256 digest of a string.
pub fn digest_text(s: &str) -> (d: String)
    ensures
        d@ == text_digest(s@),
        d@.len() == 64,
{
    let raw: Vec<u8> = sha256(s.as_bytes());
    hex_sha256(raw.as_slice())
}

/// The digest of a JSON document in its compact notation.
pub fn hash_payload(v: &Json) -> (d: String)
    ensures
        d@ == text_digest(v@),
        d@.len() == 64,
{
    digest_text(v.text.as_str())
}

/// The block key of HMAC: the key, or its digest where it is longer than a
/// block, filled up with zeros to 64 bytes.
pub open spec fn hmac_block(key: Seq<u8>) -> Seq<u8> {
    let k = if key.len() > 64 {
        sha256_of(key)
    } else {
        key
    };
    Seq::new(64, |i: int| if i < k.len() {
        k[i]
    } else {
        0u8
    })
}

/// Each byte of `block` combined with `pad`.
pub open spec fn padded(block: Seq<u8>, pad: u8) -> Seq<u8> {
    Seq::new(block.len(), |i: int| pad ^ block[i])
}

/// HMAC-SHA256 as RFC 2104 defines it.
pub open spec fn hmac_of(key: Seq<u8>, message: Seq<u8>) -> Seq<u8> {
    let block = hmac_block(key);
    sha256_of(padded(block, 0x5c) + sha256_of(padded(block, 0x36) + message))
}

fn block_key(key: &[u8]) -> (block: Vec<u8>)
    ensures
        block@ == hmac_block(key@),
{
    let mut block: Vec<u8> = Vec::new();
    let long: bool = key.len() > 64;
    let reduced: Vec<u8> = if long {
        sha256(key)
    } else {
        Vec::new()
    };
    let mut i: usize = 0;
    while i < 64
        invariant
            i <= 64,
            long == (key@.len() > 64),
            long ==> reduced@ == sha256_of(key@),
            block@ == hmac_block(key@).take(i as int),
        decreases 64 - i,
    {
        let b: u8 = if long {
            if i < reduced.len() {
                reduced[i]
            } else {
                0
            }
        } else {
            if i < key.len() {
                key[i]
            } else {
                0
            }
        };
        block.push(b);
        i = i + 1;
        proof {
            assert(hmac_block(key@).take(i as int) =~= hmac_block(key@).take(i as int - 1).push(b));
        }
    }
    proof {
        assert(hmac_block(key@).take(64) =~= hmac_block(key@));
    }
    block
}

fn pad_then(block: &Vec<u8>, pad: u8, tail: &[u8]) -> (out: Vec<u8>)
    ensures
        out@ == padded(block@, pad) + tail@,
{
    let mut out: Vec<u8> = Vec::new();
    let mut i: usize = 0;
    while i < block.len()
        invariant
            i <= block@.len(),
            out@ == padded(block@, pad).take(i as int),
        decreases block.len() - i,
    {
        out.push(pad ^ block[i]);
        i = i + 1;
        proof {
            assert(padded(block@, pad).take(i as int) =~= padded(block@, pad).take(
                i as int - 1,
            ).push(pad ^ block@[i as int - 1]));
        }
    }
    let mut j: usize = 0;
    while j < tail.len()
        invariant
            j <= tail@.len(),
            out@ =~= padded(block@, pad) + tail@.take(j as int),
        decreases tail.len() - j,
    {
        out.push(tail[j]);
        j = j + 1;
    }
    proof {
        assert(tail@.take(tail@.len() as int) =~= tail@);
    }
    out
}

/// HMAC-SHA256 in hexadecimal notation.
pub fn hmac_sha256_hex(key: &[u8], message: &[u8]) -> (tag: String)
    ensures
        tag@ == hex(hmac_of(key@, message@)),
        tag@.len() == 64,
{
    let block: Vec<u8> = block_key(key);
    let inner_input: Vec<u8> = pad_then(&block, 0x36, message);
    let inner: Vec<u8> = sha256(inner_input.as_slice());
    let outer_input: Vec<u8> = pad_then(&block, 0x5c, inner.as_slice());
    let outer: Vec<u8> = sha256(outer_input.as_slice());
    hex_sha256(outer.as_slice())
}

/// Whether two byte strings are equal, looking at every byte of equally long
/// ones before answering.
pub fn constant_time_eq(left: &[u8], right: &[u8]) -> (r: bool)
    ensures
        r == (left@ == right@),
{
    if left.len() != right.len() {
        return false;
    }
    let mut difference: u8 = 0;
    let mut i: usize = 0;
    proof {
        assert(left@.take(0) =~= right@.take(0));
    }
    while i < left.len()
        invariant
            left@.len() == right@.len(),
            i <= left@.len(),
            difference == 0 <==> left@.take(i as int) == right@.take(i as int),
        decreases left.len() - i,
    {
        let a: u8 = left[i];
        let b: u8 = right[i];
        let d: u8 = difference;
        proof {
            assert((d | (a ^ b)) == 0 <==> (d == 0 && a == b)) by (bit_vector);
            let x = left@.take(i as int);
            let y = right@.take(i as int);
            assert(left@.take(i as int + 1) =~= x.push(a));
            assert(right@.take(i as int + 1) =~= y.push(b));
            if x.push(a) == y.push(b) {
                assert(x.push(a).last() == a && y.push(b).last() == b);
                assert(x =~= x.push(a).drop_last());
                assert(y =~= y.push(b).drop_last());
            }
        }
        difference = d | (a ^ b);
        i = i + 1;
    }
    proof {
        assert(left@.take(left@.len() as int) =~= left@);
        assert(right@.take(right@.len() as int) =~= right@);
    }
    difference == 0
}

/// Why an identifier cannot name a file.
pub open spec fn file_id_fault(id: Seq<char>) -> Option<Fault> {
    if id.len() == 0 || utf8_len(id) > 256 {
        Some(invalid_fault("id length out of range"@))
    } else if contains_text(id, ".."@) || id.contains('/') || id.contains('\\') || id.contains(
        '\0',
    ) {
        Some(invalid_fault("id contains path separators"@))
    } else {
        None
    }
}

/// The file name of an identifier: the digest of its text. Identifiers that
/// could leave their directory are refused.
pub fn safe_id_filename(id: &str) -> (r: Result<String, OrchError>)
    ensures
        match file_id_fault(id@) {
            None => r is Ok && r->Ok_0@ == text_digest(id@) && r->Ok_0@.len() == 64,
            Some(f) => r is Err && r->Err_0.is(f),
        },
{
    if id.is_empty() || byte_len(id) > 256 {
        return Err(invalid("id length out of range"));
    }
    if str_contains(id, "..") || str_has_char(id, '/') || str_has_char(id, '\\') || str_has_char(
        id,
        '\0',
    ) {
        return Err(invalid("id contains path separators"));
    }
    Ok(digest_text(id))
}

/// An identifier names a file exactly where it has one to 256 bytes and nothing
/// that could lead out of a directory: no separator, no two dots in a row, and
/// no NUL.
pub proof fn file_names_stay_put(id: Seq<char>)
    ensures
        file_id_fault(id) is None <==> {
            &&& id.len() > 0
            &&& utf8_len(id) <= 256
            &&& forall|i: int|
                0 <= i < id.len() ==> #[trigger] id[i] != '/' && id[i] != '\\' && id[i] != '\0'
            &&& forall|i: int|
                0 <= i < id.len() - 1 ==> !(#[trigger] id[i] == '.' && id[i + 1] == '.')
        },
{
    reveal_strlit("..");
    if contains_text(id, ".."@) {
        let i = choose|i: int| occurs_at(id, ".."@, i);
        assert(id.subrange(i, i + 2)[0] == '.' && id.subrange(i, i + 2)[1] == '.');
        assert(id[i] == '.' && id[i + 1] == '.');
    }
    if exists|i: int| 0 <= i < id.len() - 1 && #[trigger] id[i] == '.' && id[i + 1] == '.' {
        let i = choose|i: int| 0 <= i < id.len() - 1 && #[trigger] id[i] == '.' && id[i + 1] == '.';
        assert(id.subrange(i, i + 2) =~= ".."@);
        assert(occurs_at(id, ".."@, i));
    }
    if exists|i: int|
        0 <= i < id.len() && (#[trigger] id[i] == '/' || id[i] == '\\' || id[i] == '\0') {
        let i = choose|i: int|
            0 <= i < id.len() && (#[trigger] id[i] == '/' || id[i] == '\\' || id[i] == '\0');
        assert(id.contains(id[i]));
    }
    if id.contains('/') {
        let i = choose|i: int| 0 <= i < id.len() && id[i] == '/';
        assert(id[i] == '/');
    }
    if id.contains('\\') {
        let i = choose|i: int| 0 <= i < id.len() && id[i] == '\\';
        assert(id[i] == '\\');
    }
    if id.contains('\0') {
        let i = choose|i: int| 0 <= i < id.len() && id[i] == '\0';
        assert(id[i] == '\0');
    }
}

} // verus!
