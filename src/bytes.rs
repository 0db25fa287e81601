//! Big-endian byte strings and the record padding of the payload.
use vstd::prelude::*;
use vstd::arithmetic::div_mod::lemma_mod_breakdown;
use byteorder::{BigEndian, ByteOrder};

verus! {

/// Size of one physical record of the file; every payload is padded to it.
pub const RECORD_LEN: usize = 2880;

/// `256` raised to the power `n`: the number of values `n` bytes can hold.
pub open spec fn radix(n: nat) -> nat
    decreases n,
{
    if n == 0 {
        1
    } else {
        256 * radix((n - 1) as nat)
    }
}

/// The unsigned value of a byte string, most significant byte first.
pub open spec fn be_value(s: Seq<u8>) -> nat
    decreases s.len(),
{
    if s.len() == 0 {
        0
    } else {
        (be_value(s.drop_last()) * 256 + s.last()) as nat
    }
}

/// The `n` low-order bytes of `v`, most significant first.
pub open spec fn be_bytes(v: nat, n: nat) -> Seq<u8>
    decreases n,
{
    if n == 0 {
        Seq::empty()
    } else {
        be_bytes(v / 256, (n - 1) as nat).push((v % 256) as u8)
    }
}

/// The `n`-byte big-endian encodings of `words`, one after the other.
pub open spec fn be_stream(words: Seq<nat>, n: nat) -> Seq<u8>
    decreases words.len(),
{
    if words.len() == 0 {
        Seq::empty()
    } else {
        be_stream(words.drop_last(), n) + be_bytes(words.last(), n)
    }
}

/// `bytes` read as consecutive big-endian words of `n` bytes each.
pub open spec fn be_words(bytes: Seq<u8>, n: nat) -> Seq<nat> {
    Seq::new(bytes.len() / n, |i: int| be_value(bytes.subrange(i * n, i * n + n)))
}

/// Number of zero bytes that complete a payload of `len` bytes to a whole record.
pub open spec fn pad_len(len: nat) -> nat {
    ((RECORD_LEN - len % (RECORD_LEN as nat)) % (RECORD_LEN as int)) as nat
}

pub open spec fn zeros(n: nat) -> Seq<u8> {
    Seq::new(n, |i: int| 0u8)
}

/// A payload followed by the zero bytes that complete its last record.
pub open spec fn padded(payload: Seq<u8>) -> Seq<u8> {
    payload + zeros(pad_len(payload.len()))
}

pub proof fn lemma_be_bytes_len(v: nat, n: nat)
    ensures
        be_bytes(v, n).len() == n,
    decreases n,
{
    if n > 0 {
        lemma_be_bytes_len(v / 256, (n - 1) as nat);
    }
}

/// Reading back `n` encoded bytes gives the value modulo `256^n`.
pub proof fn lemma_be_value_of_bytes(v: nat, n: nat)
    ensures
        be_value(be_bytes(v, n)) == v % radix(n),
    decreases n,
{
    if n > 0 {
        let m = (n - 1) as nat;
        let s = be_bytes(v / 256, m);
        lemma_be_value_of_bytes(v / 256, m);
        assert(s.push((v % 256) as u8).drop_last() =~= s);
        assert(radix(m) > 0) by {
            lemma_radix_positive(m);
        }
        lemma_mod_breakdown(v as int, 256, radix(m) as int);
    } else {
        assert(v % 1 == 0);
    }
}

pub proof fn lemma_radix_positive(n: nat)
    ensures
        radix(n) > 0,
    decreases n,
{
    if n > 0 {
        lemma_radix_positive((n - 1) as nat);
    }
}

/// Shape of an encoded stream: its length, and where each word's bytes lie.
pub proof fn lemma_be_stream_layout(words: Seq<nat>, n: nat)
    ensures
        be_stream(words, n).len() == words.len() * n,
        forall|i: int|
            0 <= i < words.len() ==> #[trigger] be_stream(words, n).subrange(i * n, i * n + n)
                == be_bytes(words[i], n),
    decreases words.len(),
{
    if words.len() > 0 {
        let init = words.drop_last();
        let k = init.len();
        lemma_be_stream_layout(init, n);
        lemma_be_bytes_len(words.last(), n);
        let s = be_stream(words, n);
        let t = be_stream(init, n);
        assert(s == t + be_bytes(words.last(), n));
        assert(s.len() == words.len() * n) by (nonlinear_arith)
            requires
                s.len() == k * n + n,
                words.len() == k + 1,
        ;
        assert forall|i: int| 0 <= i < words.len() implies #[trigger] s.subrange(i * n, i * n + n)
            == be_bytes(words[i], n) by {
            if i < k {
                assert(i * n + n <= k * n) by (nonlinear_arith)
                    requires
                        i < k,
                ;
                assert(0 <= i * n) by (nonlinear_arith)
                    requires
                        0 <= i,
                ;
                assert(s.subrange(i * n, i * n + n) =~= t.subrange(i * n, i * n + n));
                assert(init[i] == words[i]);
            } else {
                assert(i * n == k * n);
                assert(s.subrange(i * n, i * n + n) =~= be_bytes(words.last(), n));
            }
        }
    }
}

/// Decoding an encoded stream gives back its words, when each fits in `n` bytes.
pub proof fn lemma_be_words_of_stream(words: Seq<nat>, n: nat)
    requires
        n > 0,
        forall|i: int| 0 <= i < words.len() ==> #[trigger] words[i] < radix(n),
    ensures
        be_words(be_stream(words, n), n) == words,
{
    lemma_be_stream_layout(words, n);
    let s = be_stream(words, n);
    assert(s.len() / n == words.len()) by (nonlinear_arith)
        requires
            s.len() == words.len() * n,
            n > 0,
    ;
    assert forall|i: int| 0 <= i < words.len() implies #[trigger] be_words(s, n)[i] == words[i] by {
        assert(s.subrange(i * n, i * n + n) == be_bytes(words[i], n));
        lemma_be_value_of_bytes(words[i], n);
        vstd::arithmetic::div_mod::lemma_small_mod(words[i], radix(n));
    }
    assert(be_words(s, n) =~= words);
}

/// Number of zero bytes that complete a payload of `len` bytes to a whole record.
pub fn padding_len(len: usize) -> (r: usize)
    ensures
        r == pad_len(len as nat),
        r < RECORD_LEN,
{
    (RECORD_LEN - len % RECORD_LEN) % RECORD_LEN
}

/// Appends the zero bytes that complete the last record of `buf`.
pub fn pad_to_record(buf: &mut Vec<u8>)
    ensures
        final(buf)@ == padded(old(buf)@),
{
    let pad = padding_len(buf.len());
    let mut k: usize = 0;
    while k < pad
        invariant
            k <= pad,
            buf@ == old(buf)@ + zeros(k as nat),
        decreases pad - k,
    {
        buf.push(0u8);
        k = k + 1;
        assert(buf@ =~= old(buf)@ + zeros(k as nat));
    }
    assert(buf@ =~= padded(old(buf)@));
}

/// Relies on `u16::to_be_bytes`: the two bytes of `x`, most significant first.
#[verifier::external_body]
pub(crate) fn u16_be_bytes(x: u16) -> (r: Vec<u8>)
    ensures
        r@ == be_bytes(x as nat, 2),
{
    x.to_be_bytes().to_vec()
}

/// Relies on `u32::to_be_bytes`: the four bytes of `x`, most significant first.
#[verifier::external_body]
pub(crate) fn u32_be_bytes(x: u32) -> (r: Vec<u8>)
    ensures
        r@ == be_bytes(x as nat, 4),
{
    x.to_be_bytes().to_vec()
}

/// Relies on `u64::to_be_bytes`: the eight bytes of `x`, most significant first.
#[verifier::external_body]
pub(crate) fn u64_be_bytes(x: u64) -> (r: Vec<u8>)
    ensures
        r@ == be_bytes(x as nat, 8),
{
    x.to_be_bytes().to_vec()
}

/// Relies on `BigEndian::read_u16`: the value of the two bytes at `at`.
#[verifier::external_body]
pub(crate) fn read_be_u16(b: &[u8], at: usize) -> (r: u16)
    requires
        at + 2 <= b@.len(),
    ensures
        r == be_value(b@.subrange(at as int, at + 2)),
{
    BigEndian::read_u16(&b[at..])
}

/// Relies on `BigEndian::read_u32`: the value of the four bytes at `at`.
#[verifier::external_body]
pub(crate) fn read_be_u32(b: &[u8], at: usize) -> (r: u32)
    requires
        at + 4 <= b@.len(),
    ensures
        r == be_value(b@.subrange(at as int, at + 4)),
{
    BigEndian::read_u32(&b[at..])
}

/// Relies on `BigEndian::read_u64`: the value of the eight bytes at `at`.
#[verifier::external_body]
pub(crate) fn read_be_u64(b: &[u8], at: usize) -> (r: u64)
    requires
        at + 8 <= b@.len(),
    ensures
        r == be_value(b@.subrange(at as int, at + 8)),
{
    BigEndian::read_u64(&b[at..])
}

} // verus!
