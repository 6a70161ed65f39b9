//! SHA-256 identities: digests in hexadecimal, and the framed digests that
//! name events, proposals and registrations.
use crate::text;
use sha2::Digest;
use vstd::prelude::*;

verus! {

broadcast use {vstd::string::group_string_axioms, vstd::seq::group_seq_axioms};

/// The SHA-256 digest of a byte string.
pub uninterp spec fn sha256_of(bytes: Seq<u8>) -> Seq<u8>;

/// `sha2::Sha256::digest`: the SHA-256 digest of the bytes, which is thirty-two
/// bytes long and depends on the bytes alone.
#[verifier::external_body]
pub(crate) fn sha256(bytes: &[u8]) -> (r: Vec<u8>)
    ensures
        r@ == sha256_of(bytes@),
        r@.len() == 32,
{
    sha2::Sha256::digest(bytes).to_vec()
}

/// The lower-case hexadecimal digit of a number below sixteen.
pub open spec fn hex_char(n: int) -> char {
    if n < 10 {
        ((48 + n) as u32) as char
    } else {
        ((87 + n) as u32) as char
    }
}

/// Bytes in lower-case hexadecimal, two digits each.
pub open spec fn hex_of(bytes: Seq<u8>) -> Seq<char> {
    Seq::new(
        2 * bytes.len(),
        |i: int| if i % 2 == 0 {
            hex_char(bytes[i / 2] as int / 16)
        } else {
            hex_char(bytes[i / 2] as int % 16)
        },
    )
}

/// The SHA-256 digest of a byte string in hexadecimal.
pub open spec fn sha256_hex(bytes: Seq<u8>) -> Seq<char> {
    hex_of(sha256_of(bytes))
}

fn hex_digit_of(n: u8) -> (r: char)
    requires
        n < 16,
    ensures
        r == hex_char(n as int),
{
    if n < 10 {
        (48u8 + n) as char
    } else {
        (87u8 + n) as char
    }
}

/// Bytes in lower-case hexadecimal.
pub fn to_hex(bytes: &Vec<u8>) -> (r: String)
    ensures
        r@ == hex_of(bytes@),
{
    let mut out = String::new();
    let mut i: usize = 0;
    while i < bytes.len()
        invariant
            i <= bytes@.len(),
            out@ == hex_of(bytes@).take(2 * i),
        decreases bytes@.len() - i,
    {
        let b: u8 = bytes[i];
        out.push(hex_digit_of(b / 16));
        out.push(hex_digit_of(b % 16));
        proof {
            let all = hex_of(bytes@);
            assert((2 * i) / 2 == i as int && (2 * i + 1) / 2 == i as int);
            assert((2 * i) % 2 == 0 && (2 * i + 1) % 2 == 1);
            assert(all[2 * i] == hex_char(b as int / 16));
            assert(all[2 * i + 1] == hex_char(b as int % 16));
            assert(all.take(2 * (i + 1)) =~= all.take(2 * i).push(all[2 * i]).push(all[2 * i + 1]));
        }
        i = i + 1;
    }
    assert(hex_of(bytes@).take((2 * bytes@.len()) as int) =~= hex_of(bytes@));
    out
}

/// The SHA-256 digest of the bytes in hexadecimal.
pub fn hash_bytes(bytes: &[u8]) -> (r: String)
    ensures
        r@ == sha256_hex(bytes@),
        r@.len() == 64,
{
    let d = sha256(bytes);
    to_hex(&d)
}

/// The marked form in which fingerprints are written down.
pub open spec fn marked_sha256(bytes: Seq<u8>) -> Seq<char> {
    "sha256_"@ + sha256_hex(bytes)
}

/// The marked SHA-256 fingerprint of the bytes.
pub fn marked_hash(bytes: &[u8]) -> (r: String)
    ensures
        r@ == marked_sha256(bytes@),
{
    let hex = hash_bytes(bytes);
    let mut out = "sha256_".to_owned();
    out.append(hex.as_str());
    out
}

/// The eight bytes of a length, most significant first.
#[verifier::opaque]
pub open spec fn length_be(n: u64) -> Seq<u8> {
    seq![
        (n / 0x100_0000_0000_0000) as u8,
        (n / 0x1_0000_0000_0000 % 256) as u8,
        (n / 0x100_0000_0000 % 256) as u8,
        (n / 0x1_0000_0000 % 256) as u8,
        (n / 0x100_0000 % 256) as u8,
        (n / 0x1_0000 % 256) as u8,
        (n / 0x100 % 256) as u8,
        (n % 256) as u8,
    ]
}

/// The eight bytes of a length, least significant first.
pub open spec fn length_le(n: u64) -> Seq<u8> {
    length_be(n).reverse()
}

fn push_all(out: &mut Vec<u8>, bytes: &[u8])
    ensures
        final(out)@ == old(out)@ + bytes@,
{
    let mut i: usize = 0;
    assert(out@ =~= old(out)@ + bytes@.take(0));
    while i < bytes.len()
        invariant
            i <= bytes@.len(),
            out@ == old(out)@ + bytes@.take(i as int),
        decreases bytes@.len() - i,
    {
        out.push(bytes[i]);
        assert(old(out)@ + bytes@.take(i + 1) =~= (old(out)@ + bytes@.take(i as int)).push(
            bytes@[i as int],
        ));
        i = i + 1;
    }
    assert(bytes@.take(bytes@.len() as int) =~= bytes@);
}

/// Appends bytes to a buffer.
pub fn append_bytes(out: &mut Vec<u8>, bytes: &[u8])
    ensures
        final(out)@ == old(out)@ + bytes@,
{
    push_all(out, bytes);
}

/// Appends the UTF-8 bytes of a text to a buffer.
pub fn append_text(out: &mut Vec<u8>, s: &str)
    ensures
        final(out)@ == old(out)@ + vstd::utf8::encode_utf8(s@),
{
    push_all(out, s.as_bytes());
}

fn append_length_be(out: &mut Vec<u8>, n: u64)
    ensures
        final(out)@ == old(out)@ + length_be(n),
{
    reveal(length_be);
    out.push((n / 0x100_0000_0000_0000) as u8);
    out.push((n / 0x1_0000_0000_0000 % 256) as u8);
    out.push((n / 0x100_0000_0000 % 256) as u8);
    out.push((n / 0x1_0000_0000 % 256) as u8);
    out.push((n / 0x100_0000 % 256) as u8);
    out.push((n / 0x1_0000 % 256) as u8);
    out.push((n / 0x100 % 256) as u8);
    out.push((n % 256) as u8);
    assert(out@ =~= old(out)@ + length_be(n));
}

/// Appends the eight bytes of a length, least significant first.
pub fn append_length_le(out: &mut Vec<u8>, n: u64)
    ensures
        final(out)@ == old(out)@ + length_le(n),
{
    reveal(length_be);
    out.push((n % 256) as u8);
    out.push((n / 0x100 % 256) as u8);
    out.push((n / 0x1_0000 % 256) as u8);
    out.push((n / 0x100_0000 % 256) as u8);
    out.push((n / 0x1_0000_0000 % 256) as u8);
    out.push((n / 0x100_0000_0000 % 256) as u8);
    out.push((n / 0x1_0000_0000_0000 % 256) as u8);
    out.push((n / 0x100_0000_0000_0000) as u8);
    assert(out@ =~= old(out)@ + length_le(n));
}

/// Byte strings, each after its length, one after another.
pub open spec fn framed(parts: Seq<Seq<u8>>) -> Seq<u8>
    decreases parts.len(),
{
    if parts.len() == 0 {
        Seq::empty()
    } else {
        framed(parts.drop_last()) + length_be(parts.last().len() as u64) + parts.last()
    }
}

/// The views of a list of byte strings.
pub open spec fn byte_views(parts: Seq<Vec<u8>>) -> Seq<Seq<u8>> {
    parts.map_values(|p: Vec<u8>| p@)
}

/// The fingerprint of several byte strings, each framed by its length so that
/// moving a boundary changes what is hashed.
pub fn digest_parts(parts: &Vec<Vec<u8>>) -> (r: String)
    ensures
        r@ == marked_sha256(framed(byte_views(parts@))),
{
    let mut buffer: Vec<u8> = Vec::new();
    let mut i: usize = 0;
    assert(byte_views(parts@).take(0) =~= Seq::<Seq<u8>>::empty());
    while i < parts.len()
        invariant
            i <= parts@.len(),
            buffer@ == framed(byte_views(parts@).take(i as int)),
        decreases parts@.len() - i,
    {
        let n: usize = parts[i].len();
        append_length_be(&mut buffer, n as u64);
        push_all(&mut buffer, parts[i].as_slice());
        proof {
            let next = byte_views(parts@).take(i + 1);
            assert(next.drop_last() =~= byte_views(parts@).take(i as int));
            assert(next.last() == parts@[i as int]@);
        }
        i = i + 1;
    }
    assert(byte_views(parts@).take(parts@.len() as int) =~= byte_views(parts@));
    marked_hash(buffer.as_slice())
}

/// The UTF-8 bytes of texts, each after its length.
pub fn frame(parts: &Vec<&str>) -> (r: Vec<u8>)
    ensures
        r@ == framed(utf8_of(text::str_views(parts@))),
{
    let mut out: Vec<u8> = Vec::new();
    let ghost all = utf8_of(text::str_views(parts@));
    let mut i: usize = 0;
    assert(all.take(0) =~= Seq::<Seq<u8>>::empty());
    while i < parts.len()
        invariant
            i <= parts@.len(),
            all == utf8_of(text::str_views(parts@)),
            out@ == framed(all.take(i as int)),
        decreases parts@.len() - i,
    {
        let bytes = parts[i].as_bytes();
        let n: usize = bytes.len();
        append_length_be(&mut out, n as u64);
        push_all(&mut out, bytes);
        assert(all.take(i + 1).drop_last() =~= all.take(i as int));
        assert(all.take(i + 1).last() == bytes@);
        i = i + 1;
    }
    assert(all.take(all.len() as int) =~= all);
    out
}

proof fn length_be_injective(a: u64, b: u64)
    requires
        length_be(a) == length_be(b),
    ensures
        a == b,
{
    reveal(length_be);
    assert(length_be(a)[0] == length_be(b)[0]);
    assert(length_be(a)[1] == length_be(b)[1]);
    assert(length_be(a)[2] == length_be(b)[2]);
    assert(length_be(a)[3] == length_be(b)[3]);
    assert(length_be(a)[4] == length_be(b)[4]);
    assert(length_be(a)[5] == length_be(b)[5]);
    assert(length_be(a)[6] == length_be(b)[6]);
    assert(length_be(a)[7] == length_be(b)[7]);
    nested_quotients(a as int);
    nested_quotients(b as int);
}

/// Each base-256 quotient is the next one times 256 and a remainder.
proof fn nested_quotients(n: int)
    requires
        0 <= n,
    ensures
        n == n / 0x100 * 256 + n % 256,
        n / 0x100 == n / 0x1_0000 * 256 + n / 0x100 % 256,
        n / 0x1_0000 == n / 0x100_0000 * 256 + n / 0x1_0000 % 256,
        n / 0x100_0000 == n / 0x1_0000_0000 * 256 + n / 0x100_0000 % 256,
        n / 0x1_0000_0000 == n / 0x100_0000_0000 * 256 + n / 0x1_0000_0000 % 256,
        n / 0x100_0000_0000 == n / 0x1_0000_0000_0000 * 256 + n / 0x100_0000_0000 % 256,
        n / 0x1_0000_0000_0000 == n / 0x100_0000_0000_0000 * 256 + n / 0x1_0000_0000_0000 % 256,
{
    vstd::arithmetic::div_mod::lemma_div_denominator(n, 0x100, 256);
    vstd::arithmetic::div_mod::lemma_div_denominator(n, 0x1_0000, 256);
    vstd::arithmetic::div_mod::lemma_div_denominator(n, 0x100_0000, 256);
    vstd::arithmetic::div_mod::lemma_div_denominator(n, 0x1_0000_0000, 256);
    vstd::arithmetic::div_mod::lemma_div_denominator(n, 0x100_0000_0000, 256);
    vstd::arithmetic::div_mod::lemma_div_denominator(n, 0x1_0000_0000_0000, 256);
}

proof fn framed_front(parts: Seq<Seq<u8>>)
    requires
        parts.len() > 0,
    ensures
        framed(parts) == length_be(parts[0].len() as u64) + parts[0] + framed(parts.skip(1)),
        length_be(parts[0].len() as u64).len() == 8,
    decreases parts.len(),
{
    assert(length_be(parts[0].len() as u64).len() == 8) by {
        reveal(length_be);
    }
    if parts.len() == 1 {
        assert(parts.drop_last() =~= Seq::<Seq<u8>>::empty());
        assert(parts.skip(1) =~= Seq::<Seq<u8>>::empty());
        assert(framed(parts) =~= length_be(parts[0].len() as u64) + parts[0] + framed(
            parts.skip(1),
        ));
    } else {
        let init = parts.drop_last();
        framed_front(init);
        assert(init.skip(1) =~= parts.skip(1).drop_last());
        assert(parts.skip(1).last() == parts.last());
        assert(framed(parts) =~= length_be(parts[0].len() as u64) + parts[0] + framed(
            parts.skip(1),
        ));
    }
}

/// Framing loses nothing: different lists of byte strings are framed
/// differently, so no two lists share what is hashed for them.
pub proof fn framed_is_injective(a: Seq<Seq<u8>>, b: Seq<Seq<u8>>)
    requires
        forall|i: int| 0 <= i < a.len() ==> (#[trigger] a[i]).len() <= u64::MAX,
        forall|i: int| 0 <= i < b.len() ==> (#[trigger] b[i]).len() <= u64::MAX,
        framed(a) == framed(b),
    ensures
        a == b,
    decreases a.len(),
{
    if a.len() == 0 || b.len() == 0 {
        if a.len() > 0 {
            framed_front(a);
            assert(framed(a).len() >= 8);
            assert(framed(b).len() == 0);
        }
        if b.len() > 0 {
            framed_front(b);
            assert(framed(b).len() >= 8);
            assert(framed(a).len() == 0);
        }
        assert(a.len() == 0 && b.len() == 0);
        assert(a =~= b);
    } else {
        framed_front(a);
        framed_front(b);
        let ha = length_be(a[0].len() as u64);
        let hb = length_be(b[0].len() as u64);
        assert(framed(a).take(8) =~= ha);
        assert(framed(b).take(8) =~= hb);
        length_be_injective(a[0].len() as u64, b[0].len() as u64);
        let n = a[0].len() as int;
        assert(framed(a).subrange(8, 8 + n) =~= a[0]);
        assert(framed(b).subrange(8, 8 + n) =~= b[0]);
        assert(framed(a).skip(8 + n) =~= framed(a.skip(1)));
        assert(framed(b).skip(8 + n) =~= framed(b.skip(1)));
        framed_is_injective(a.skip(1), b.skip(1));
        assert(a =~= seq![a[0]] + a.skip(1));
        assert(b =~= seq![b[0]] + b.skip(1));
    }
}

// ---------------------------------------------------------------------------
// Frames with the least significant byte of a length first
// ---------------------------------------------------------------------------

/// Byte strings, each after its length with the least significant byte first,
/// one after another.
pub open spec fn framed_le(parts: Seq<Seq<u8>>) -> Seq<u8>
    decreases parts.len(),
{
    if parts.len() == 0 {
        Seq::empty()
    } else {
        framed_le(parts.drop_last()) + length_le(parts.last().len() as u64) + parts.last()
    }
}

/// Appends byte strings to a buffer, each after its length with the least
/// significant byte first.
pub fn append_framed_le(out: &mut Vec<u8>, parts: &Vec<Vec<u8>>)
    ensures
        final(out)@ == old(out)@ + framed_le(byte_views(parts@)),
{
    let ghost all = byte_views(parts@);
    let ghost before = out@;
    let mut i: usize = 0;
    assert(all.take(0) =~= Seq::<Seq<u8>>::empty());
    assert(out@ =~= before + framed_le(all.take(0)));
    while i < parts.len()
        invariant
            i <= parts@.len(),
            all == byte_views(parts@),
            out@ == before + framed_le(all.take(i as int)),
        decreases parts@.len() - i,
    {
        let n: usize = parts[i].len();
        append_length_le(out, n as u64);
        push_all(out, parts[i].as_slice());
        assert(all.take(i + 1).drop_last() =~= all.take(i as int));
        assert(all.take(i + 1).last() == parts@[i as int]@);
        assert(out@ =~= before + framed_le(all.take(i + 1)));
        i = i + 1;
    }
    assert(all.take(all.len() as int) =~= all);
}

proof fn length_le_injective(a: u64, b: u64)
    requires
        length_le(a) == length_le(b),
    ensures
        a == b,
{
    assert(length_be(a) =~= length_le(a).reverse());
    assert(length_be(b) =~= length_le(b).reverse());
    length_be_injective(a, b);
}

proof fn framed_le_front(parts: Seq<Seq<u8>>)
    requires
        parts.len() > 0,
    ensures
        framed_le(parts) == length_le(parts[0].len() as u64) + parts[0] + framed_le(parts.skip(1)),
        length_le(parts[0].len() as u64).len() == 8,
    decreases parts.len(),
{
    assert(length_le(parts[0].len() as u64).len() == 8) by {
        reveal(length_be);
    }
    let head = length_le(parts[0].len() as u64) + parts[0];
    if parts.len() == 1 {
        assert(parts.drop_last() =~= Seq::<Seq<u8>>::empty());
        assert(parts.skip(1) =~= Seq::<Seq<u8>>::empty());
        assert(framed_le(parts) =~= head + framed_le(parts.skip(1)));
    } else {
        let init = parts.drop_last();
        framed_le_front(init);
        assert(init.skip(1) =~= parts.skip(1).drop_last());
        assert(parts.skip(1).last() == parts.last());
        assert(framed_le(parts) =~= head + framed_le(parts.skip(1)));
    }
}

/// Framing with the least significant byte first loses nothing either.
pub proof fn framed_le_is_injective(a: Seq<Seq<u8>>, b: Seq<Seq<u8>>)
    requires
        forall|i: int| 0 <= i < a.len() ==> (#[trigger] a[i]).len() <= u64::MAX,
        forall|i: int| 0 <= i < b.len() ==> (#[trigger] b[i]).len() <= u64::MAX,
        framed_le(a) == framed_le(b),
    ensures
        a == b,
    decreases a.len(),
{
    if a.len() == 0 || b.len() == 0 {
        if a.len() > 0 {
            framed_le_front(a);
            assert(framed_le(a).len() >= 8);
        }
        if b.len() > 0 {
            framed_le_front(b);
            assert(framed_le(b).len() >= 8);
        }
        assert(a =~= b);
    } else {
        framed_le_front(a);
        framed_le_front(b);
        assert(framed_le(a).take(8) =~= length_le(a[0].len() as u64));
        assert(framed_le(b).take(8) =~= length_le(b[0].len() as u64));
        length_le_injective(a[0].len() as u64, b[0].len() as u64);
        let n = a[0].len() as int;
        assert(framed_le(a).subrange(8, 8 + n) =~= a[0]);
        assert(framed_le(b).subrange(8, 8 + n) =~= b[0]);
        assert(framed_le(a).skip(8 + n) =~= framed_le(a.skip(1)));
        assert(framed_le(b).skip(8 + n) =~= framed_le(b.skip(1)));
        framed_le_is_injective(a.skip(1), b.skip(1));
        assert(a =~= seq![a[0]] + a.skip(1));
        assert(b =~= seq![b[0]] + b.skip(1));
    }
}

// ---------------------------------------------------------------------------
// Terminated texts
// ---------------------------------------------------------------------------

/// The UTF-8 bytes of texts.
pub open spec fn utf8_of(texts: Seq<Seq<char>>) -> Seq<Seq<u8>> {
    texts.map_values(|t: Seq<char>| vstd::utf8::encode_utf8(t))
}

/// Byte strings, each with a zero byte behind it, one after another.
pub open spec fn terminated(parts: Seq<Seq<u8>>) -> Seq<u8>
    decreases parts.len(),
{
    if parts.len() == 0 {
        Seq::empty()
    } else {
        terminated(parts.drop_last()) + parts.last().push(0u8)
    }
}

/// Appends the UTF-8 bytes of a text and a zero byte.
pub fn append_terminated(out: &mut Vec<u8>, s: &str)
    ensures
        final(out)@ == old(out)@ + vstd::utf8::encode_utf8(s@).push(0u8),
{
    append_text(out, s);
    out.push(0u8);
    assert(out@ =~= old(out)@ + vstd::utf8::encode_utf8(s@).push(0u8));
}

/// The UTF-8 bytes of texts, each with a zero byte behind it.
pub fn terminate(parts: &Vec<&str>) -> (r: Vec<u8>)
    ensures
        r@ == terminated(utf8_of(text::str_views(parts@))),
{
    let mut out: Vec<u8> = Vec::new();
    let ghost all = utf8_of(text::str_views(parts@));
    let mut i: usize = 0;
    assert(all.take(0) =~= Seq::<Seq<u8>>::empty());
    while i < parts.len()
        invariant
            i <= parts@.len(),
            all == utf8_of(text::str_views(parts@)),
            out@ == terminated(all.take(i as int)),
        decreases parts@.len() - i,
    {
        append_terminated(&mut out, parts[i]);
        assert(all.take(i + 1).drop_last() =~= all.take(i as int));
        assert(all.take(i + 1).last() == vstd::utf8::encode_utf8(parts@[i as int]@));
        i = i + 1;
    }
    assert(all.take(all.len() as int) =~= all);
    out
}

/// No zero byte in any of the byte strings.
pub open spec fn zero_free(parts: Seq<Seq<u8>>) -> bool {
    forall|i: int, j: int|
        0 <= i < parts.len() && 0 <= j < parts[i].len() ==> #[trigger] parts[i][j] != 0u8
}

proof fn terminated_front(parts: Seq<Seq<u8>>)
    requires
        parts.len() > 0,
    ensures
        terminated(parts) == parts[0].push(0u8) + terminated(parts.skip(1)),
    decreases parts.len(),
{
    if parts.len() == 1 {
        assert(parts.drop_last() =~= Seq::<Seq<u8>>::empty());
        assert(parts.skip(1) =~= Seq::<Seq<u8>>::empty());
        assert(terminated(parts) =~= parts[0].push(0u8) + terminated(parts.skip(1)));
    } else {
        terminated_front(parts.drop_last());
        assert(parts.drop_last().skip(1) =~= parts.skip(1).drop_last());
        assert(parts.skip(1).last() == parts.last());
        assert(terminated(parts) =~= parts[0].push(0u8) + terminated(parts.skip(1)));
    }
}

/// Terminating loses nothing: different lists of byte strings without zero
/// bytes are written differently.
pub proof fn terminated_is_injective(a: Seq<Seq<u8>>, b: Seq<Seq<u8>>)
    requires
        zero_free(a),
        zero_free(b),
        terminated(a) == terminated(b),
    ensures
        a == b,
    decreases a.len(),
{
    if a.len() == 0 || b.len() == 0 {
        if a.len() > 0 {
            terminated_front(a);
            assert(terminated(a).len() > 0);
        }
        if b.len() > 0 {
            terminated_front(b);
            assert(terminated(b).len() > 0);
        }
        assert(a =~= b);
    } else {
        terminated_front(a);
        terminated_front(b);
        let x = a[0];
        let y = b[0];
        let all = terminated(a);
        assert(all[x.len() as int] == 0u8);
        assert(all[y.len() as int] == 0u8) by {
            assert(terminated(b)[y.len() as int] == 0u8);
        }
        if x.len() < y.len() {
            assert(terminated(b)[x.len() as int] == y[x.len() as int]);
            assert(b[0][x.len() as int] != 0u8);
        }
        if y.len() < x.len() {
            assert(all[y.len() as int] == x[y.len() as int]);
            assert(a[0][y.len() as int] != 0u8);
        }
        assert(x =~= y) by {
            assert forall|k: int| 0 <= k < x.len() implies x[k] == y[k] by {
                assert(all[k] == x[k]);
                assert(terminated(b)[k] == y[k]);
            }
        }
        let n = x.len() + 1;
        assert(all.skip(n as int) =~= terminated(a.skip(1)));
        assert(terminated(b).skip(n as int) =~= terminated(b.skip(1)));
        assert forall|i: int, j: int|
            0 <= i < a.skip(1).len() && 0 <= j < a.skip(1)[i].len() implies #[trigger] a.skip(
            1,
        )[i][j] != 0u8 by {
            assert(a[i + 1][j] != 0u8);
        }
        assert forall|i: int, j: int|
            0 <= i < b.skip(1).len() && 0 <= j < b.skip(1)[i].len() implies #[trigger] b.skip(
            1,
        )[i][j] != 0u8 by {
            assert(b[i + 1][j] != 0u8);
        }
        terminated_is_injective(a.skip(1), b.skip(1));
        assert(a =~= seq![a[0]] + a.skip(1));
        assert(b =~= seq![b[0]] + b.skip(1));
    }
}

/// Of bytes that begin with a byte string without zero bytes and a zero byte
/// behind it, that byte string can be told.
pub proof fn first_terminated_is_told(a: Seq<u8>, x: Seq<u8>, b: Seq<u8>, y: Seq<u8>)
    requires
        forall|i: int| 0 <= i < a.len() ==> #[trigger] a[i] != 0u8,
        forall|i: int| 0 <= i < b.len() ==> #[trigger] b[i] != 0u8,
        a.push(0u8) + x == b.push(0u8) + y,
    ensures
        a == b,
        x == y,
{
    let all = a.push(0u8) + x;
    let other = b.push(0u8) + y;
    assert(all[a.len() as int] == 0u8);
    assert(other[b.len() as int] == 0u8);
    if a.len() < b.len() {
        assert(other[a.len() as int] == b[a.len() as int]);
    }
    if b.len() < a.len() {
        assert(all[b.len() as int] == a[b.len() as int]);
    }
    assert forall|k: int| 0 <= k < a.len() implies a[k] == b[k] by {
        assert(all[k] == a[k]);
        assert(other[k] == b[k]);
    }
    assert(a =~= b);
    assert(x =~= all.skip((a.len() + 1) as int));
    assert(y =~= other.skip((b.len() + 1) as int));
}

/// Of bytes that begin with a number, that number can be told.
pub proof fn length_le_is_told(a: u64, x: Seq<u8>, b: u64, y: Seq<u8>)
    requires
        length_le(a) + x == length_le(b) + y,
    ensures
        a == b,
        x == y,
{
    assert(length_le(a).len() == 8 && length_le(b).len() == 8) by {
        reveal(length_be);
    }
    assert((length_le(a) + x).take(8) =~= length_le(a));
    assert((length_le(b) + y).take(8) =~= length_le(b));
    length_le_injective(a, b);
    assert((length_le(a) + x).skip(8) =~= x);
    assert((length_le(b) + y).skip(8) =~= y);
}

proof fn hex_digits_are_told(m: int, n: int)
    requires
        0 <= m < 16,
        0 <= n < 16,
        hex_char(m) == hex_char(n),
    ensures
        m == n,
{
    assert(hex_char(m) as int == if m < 10 {
        48 + m
    } else {
        87 + m
    });
    assert(hex_char(n) as int == if n < 10 {
        48 + n
    } else {
        87 + n
    });
}

/// Of bytes in hexadecimal, the bytes can be told.
pub proof fn hex_is_told(a: Seq<u8>, b: Seq<u8>)
    requires
        hex_of(a) == hex_of(b),
    ensures
        a == b,
{
    let x = hex_of(a);
    let y = hex_of(b);
    assert(x.len() == 2 * a.len() && y.len() == 2 * b.len());
    assert forall|i: int| 0 <= i < a.len() implies a[i] == b[i] by {
        assert((2 * i) / 2 == i && (2 * i) % 2 == 0);
        assert((2 * i + 1) / 2 == i && (2 * i + 1) % 2 == 1);
        assert(x[2 * i] == hex_char(a[i] as int / 16) && y[2 * i] == hex_char(b[i] as int / 16));
        assert(x[2 * i + 1] == hex_char(a[i] as int % 16));
        assert(y[2 * i + 1] == hex_char(b[i] as int % 16));
        hex_digits_are_told(a[i] as int / 16, b[i] as int / 16);
        hex_digits_are_told(a[i] as int % 16, b[i] as int % 16);
    }
    assert(a =~= b);
}

/// Two byte strings that differ share a digest.
pub open spec fn collide(a: Seq<u8>, b: Seq<u8>) -> bool {
    a != b && sha256_of(a) == sha256_of(b)
}

/// Byte strings have the same fingerprint exactly where they are the same, or
/// where they collide.
pub proof fn fingerprints_tell_bytes(a: Seq<u8>, b: Seq<u8>)
    ensures
        sha256_hex(a) == sha256_hex(b) <==> a == b || collide(a, b),
{
    if sha256_hex(a) == sha256_hex(b) {
        hex_is_told(sha256_of(a), sha256_of(b));
    }
}

} // verus!
