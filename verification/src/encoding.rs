//! Byte framing, fixed-width big-endian integers, SHA-256 and hex text.
use vstd::prelude::*;

verus! {

/// The low `n` bytes of `x`, most significant first.
pub open spec fn be_bytes(x: nat, n: nat) -> Seq<u8>
    decreases n,
{
    if n == 0 {
        Seq::empty()
    } else {
        be_bytes(x / 256, (n - 1) as nat).push((x % 256) as u8)
    }
}

pub open spec fn u64_be(x: u64) -> Seq<u8> {
    be_bytes(x as nat, 8)
}

pub open spec fn u32_be(x: u32) -> Seq<u8> {
    be_bytes(x as nat, 4)
}

/// Two's-complement big-endian encoding, as `i64::to_be_bytes` gives it.
pub open spec fn i64_be(x: i64) -> Seq<u8> {
    if x >= 0 {
        be_bytes(x as nat, 8)
    } else {
        be_bytes((x + 0x1_0000_0000_0000_0000int) as nat, 8)
    }
}

/// A 128-bit identifier in its 16-byte big-endian form.
pub open spec fn id_bytes(x: u128) -> Seq<u8> {
    be_bytes(x as nat, 16)
}

/// One length-prefixed field: its length as a big-endian `u64`, then the bytes.
pub open spec fn framed(bytes: Seq<u8>) -> Seq<u8> {
    be_bytes(bytes.len(), 8) + bytes
}

pub open spec fn zero_digest() -> Seq<u8> {
    Seq::new(32, |i: int| 0u8)
}

/// SHA-256 of a byte string.
pub uninterp spec fn sha256_spec(data: Seq<u8>) -> Seq<u8>;

/// Calls `sha2::Sha256::digest` on the whole message and returns the 32-byte
/// digest. The contract names the result and states nothing else about it.
#[verifier::external_body]
pub(crate) fn sha256(data: &[u8]) -> (r: [u8; 32])
    ensures
        r@ == sha256_spec(data@),
{
    <sha2::Sha256 as sha2::Digest>::digest(data).into()
}

pub proof fn lemma_be_bytes_len(x: nat, n: nat)
    ensures
        be_bytes(x, n).len() == n,
    decreases n,
{
    if n > 0 {
        lemma_be_bytes_len(x / 256, (n - 1) as nat);
    }
}

/// Appends the low `n` bytes of `x`, most significant first.
pub fn push_be(out: &mut Vec<u8>, x: u128, n: usize)
    ensures
        final(out)@ == old(out)@ + be_bytes(x as nat, n as nat),
    decreases n,
{
    if n == 0 {
        assert(old(out)@ + be_bytes(x as nat, 0) =~= old(out)@);
    } else {
        push_be(out, x / 256, n - 1);
        out.push((x % 256) as u8);
        assert(old(out)@ + be_bytes(x as nat, n as nat) =~= old(out)@ + be_bytes(
            (x / 256) as nat,
            (n - 1) as nat,
        ) + seq![(x % 256) as u8]);
    }
}

pub fn push_u64(out: &mut Vec<u8>, x: u64)
    ensures
        final(out)@ == old(out)@ + u64_be(x),
{
    push_be(out, x as u128, 8);
}

pub fn push_u32(out: &mut Vec<u8>, x: u32)
    ensures
        final(out)@ == old(out)@ + u32_be(x),
{
    push_be(out, x as u128, 4);
}

pub fn push_i64(out: &mut Vec<u8>, x: i64)
    ensures
        final(out)@ == old(out)@ + i64_be(x),
{
    if x >= 0 {
        push_be(out, x as u128, 8);
    } else {
        let shifted: i128 = (x as i128) + 0x1_0000_0000_0000_0000i128;
        push_be(out, shifted as u128, 8);
    }
}

pub fn push_id(out: &mut Vec<u8>, x: u128)
    ensures
        final(out)@ == old(out)@ + id_bytes(x),
{
    push_be(out, x, 16);
}

pub fn push_bytes(out: &mut Vec<u8>, bytes: &[u8])
    ensures
        final(out)@ == old(out)@ + bytes@,
{
    let mut i: usize = 0;
    while i < bytes.len()
        invariant
            i <= bytes@.len(),
            out@ == old(out)@ + bytes@.take(i as int),
        decreases bytes@.len() - i,
    {
        out.push(bytes[i]);
        i = i + 1;
        assert(bytes@.take(i as int) =~= bytes@.take(i - 1).push(bytes@[i - 1]));
    }
    assert(bytes@.take(bytes@.len() as int) =~= bytes@);
}

/// Appends one length-prefixed field.
pub fn push_framed(out: &mut Vec<u8>, bytes: &[u8])
    ensures
        final(out)@ == old(out)@ + framed(bytes@),
{
    push_be(out, bytes.len() as u128, 8);
    push_bytes(out, bytes);
    assert(old(out)@ + framed(bytes@) =~= old(out)@ + be_bytes(bytes@.len(), 8) + bytes@);
}

/// Appends one length-prefixed UTF-8 text field.
pub fn push_framed_str(out: &mut Vec<u8>, s: &str)
    ensures
        final(out)@ == old(out)@ + framed(vstd::utf8::encode_utf8(s@)),
{
    push_framed(out, s.as_bytes());
}

/// A 32-byte digest from a byte slice of exactly that length.
pub fn digest_from_slice(value: &[u8]) -> (r: Option<[u8; 32]>)
    ensures
        r is Some <==> value@.len() == 32,
        r matches Some(d) ==> d@ == value@,
{
    if value.len() != 32 {
        return None;
    }
    let mut out = [0u8; 32];
    let mut i: usize = 0;
    while i < 32
        invariant
            i <= 32,
            value@.len() == 32,
            out@.len() == 32,
            forall|j: int| 0 <= j < i ==> out@[j] == value@[j],
        decreases 32 - i,
    {
        out[i] = value[i];
        i = i + 1;
    }
    assert(out@ =~= value@);
    Some(out)
}

/// Appends a length-prefixed 8-byte big-endian signed integer.
pub fn push_framed_i64(out: &mut Vec<u8>, x: i64)
    ensures
        final(out)@ == old(out)@ + framed(i64_be(x)),
{
    let mut tmp: Vec<u8> = Vec::new();
    push_i64(&mut tmp, x);
    assert(tmp@ =~= i64_be(x));
    push_framed(out, tmp.as_slice());
}

/// Appends a length-prefixed 8-byte big-endian unsigned integer.
pub fn push_framed_u64(out: &mut Vec<u8>, x: u64)
    ensures
        final(out)@ == old(out)@ + framed(u64_be(x)),
{
    let mut tmp: Vec<u8> = Vec::new();
    push_u64(&mut tmp, x);
    assert(tmp@ =~= u64_be(x));
    push_framed(out, tmp.as_slice());
}

/// Appends a length-prefixed 4-byte big-endian unsigned integer.
pub fn push_framed_u32(out: &mut Vec<u8>, x: u32)
    ensures
        final(out)@ == old(out)@ + framed(u32_be(x)),
{
    let mut tmp: Vec<u8> = Vec::new();
    push_u32(&mut tmp, x);
    assert(tmp@ =~= u32_be(x));
    push_framed(out, tmp.as_slice());
}

/// Appends a length-prefixed 16-byte identifier.
pub fn push_framed_id(out: &mut Vec<u8>, x: u128)
    ensures
        final(out)@ == old(out)@ + framed(id_bytes(x)),
{
    let mut tmp: Vec<u8> = Vec::new();
    push_id(&mut tmp, x);
    assert(tmp@ =~= id_bytes(x));
    push_framed(out, tmp.as_slice());
}

pub fn is_zero_digest(d: &[u8; 32]) -> (r: bool)
    ensures
        r == (d@ == zero_digest()),
{
    let mut i: usize = 0;
    while i < 32
        invariant
            i <= 32,
            d@.len() == 32,
            forall|j: int| 0 <= j < i ==> d@[j] == 0u8,
        decreases 32 - i,
    {
        if d[i] != 0 {
            assert(d@[i as int] != zero_digest()[i as int]);
            return false;
        }
        i = i + 1;
    }
    assert(d@ =~= zero_digest());
    true
}

pub fn digest_eq(a: &[u8; 32], b: &[u8; 32]) -> (r: bool)
    ensures
        r == (a@ == b@),
{
    let mut i: usize = 0;
    while i < 32
        invariant
            i <= 32,
            a@.len() == 32,
            b@.len() == 32,
            forall|j: int| 0 <= j < i ==> a@[j] == b@[j],
        decreases 32 - i,
    {
        if a[i] != b[i] {
            return false;
        }
        i = i + 1;
    }
    assert(a@ =~= b@);
    true
}

pub open spec fn hex_char(nibble: u8) -> char {
    if nibble < 10 {
        (nibble + 48) as char
    } else {
        (nibble + 87) as char
    }
}

/// Lower-case hexadecimal text, two characters per byte.
pub open spec fn hex_lower(bytes: Seq<u8>) -> Seq<char>
    decreases bytes.len(),
{
    if bytes.len() == 0 {
        Seq::empty()
    } else {
        hex_lower(bytes.drop_last()) + seq![
            hex_char(bytes.last() / 16),
            hex_char(bytes.last() % 16),
        ]
    }
}

/// Calls `hex::encode`, which writes each byte as two lower-case hex digits.
#[verifier::external_body]
pub(crate) fn hex_encode(bytes: &[u8]) -> (r: String)
    ensures
        r@ == hex_lower(bytes@),
{
    hex::encode(bytes)
}

/// The canonical text of a UUID: its sixteen big-endian bytes as lower-case
/// hexadecimal in groups of 8, 4, 4, 4 and 12 digits joined by hyphens.
pub open spec fn uuid_text(id: u128) -> Seq<char> {
    let h = hex_lower(id_bytes(id));
    h.subrange(0, 8) + "-"@ + h.subrange(8, 12) + "-"@ + h.subrange(12, 16) + "-"@ + h.subrange(16, 20)
        + "-"@ + h.subrange(20, 32)
}

/// Calls `uuid::Uuid::from_u128`, which takes the integer's big-endian
/// bytes, and formats the UUID with its `Display`, which writes the
/// hyphenated lower-case form.
#[verifier::external_body]
pub(crate) fn format_uuid(id: u128) -> (r: String)
    ensures
        r@ == uuid_text(id),
{
    uuid::Uuid::from_u128(id).to_string()
}

} // verus!
